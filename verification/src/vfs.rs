//! The entry tree of one mounted file system.
//!
//! Entries and nodes live in two arenas. An entry binds a name in a parent
//! directory to a node; a node holds the metadata and the bytes. A
//! [`Location`] is the index of an entry: it stays the handle of that entry
//! when the entry is renamed, and names nothing once the entry is removed.
//! Slots are never used again.

use crate::error::{VfsError, VfsResult};
use crate::fat::fs::FatFilesystem;
use crate::fat::util::{DosDate, DosDateTime, DosTime, FatFileInfo};
use crate::model::{
    blocks_for, dot, dotdot, join_names, max_file_size, new_node_meta, path_text, resized,
    root_meta, written, zeros, EntryView, FsView, NodeView, ReadDirEntryView, EXT4_BLOCK_SIZE,
    EXT4_ROOT_INODE, EXT4_ROOT_MODE, MAX_NAME_LEN,
};
use crate::strings::{str_contains_char, str_eq};
use crate::types::{Duration, Metadata, NodePermission, NodeType};
use vstd::prelude::*;
use vstd::slice::slice_to_vec;

pub use crate::model::{FsKind, Location, NodeId};

verus! {

/// A slot of the arena of entries.
struct Entry {
    parent: Option<usize>,
    name: String,
    node: usize,
    children: Vec<usize>,
    live: bool,
}

/// A slot of the arena of nodes.
struct Node {
    meta: Metadata,
    content: Vec<u8>,
}

impl View for Entry {
    type V = EntryView;

    closed spec fn view(&self) -> EntryView {
        EntryView {
            parent: self.parent,
            name: self.name@,
            node: self.node,
            children: self.children@,
            live: self.live,
        }
    }
}

impl View for Node {
    type V = NodeView;

    closed spec fn view(&self) -> NodeView {
        NodeView { meta: self.meta, content: self.content@ }
    }
}

/// One mounted file system.
pub struct Filesystem {
    adapter: Adapter,
    entries: Vec<Entry>,
    nodes: Vec<Node>,
}

/// What a file system keeps for the format that it follows.
enum Adapter {
    /// FAT: the adapter's own state.
    Fat(FatFilesystem),
    /// ext4: the inode number that was handed out last.
    Ext4 { last_inode: u64 },
}

impl View for Filesystem {
    type V = FsView;

    closed spec fn view(&self) -> FsView {
        FsView {
            kind: match self.adapter {
                Adapter::Fat(_) => FsKind::Fat,
                Adapter::Ext4 { .. } => FsKind::Ext4,
            },
            entries: Seq::new(self.entries@.len(), |i: int| self.entries@[i]@),
            nodes: Seq::new(self.nodes@.len(), |i: int| self.nodes@[i]@),
        }
    }
}

impl Filesystem {
    /// Whether this value is a tree; every file system that the functions of
    /// this module hand out is.
    pub open spec fn wf(&self) -> bool {
        self@.well_formed() && self.adapter_ready()
    }

    /// Whether the state that is kept for the format is complete.
    pub closed spec fn adapter_ready(&self) -> bool {
        match self.adapter {
            Adapter::Fat(fat) => fat.wf() && Self::in_use(self@, self.allocated()),
            Adapter::Ext4 { last_inode } => last_inode == self.nodes@.len() + 1,
        }
    }

    /// The inode numbers that the allocator of a FAT file system has
    /// handed out and not taken back.
    pub closed spec fn allocated(&self) -> Set<int> {
        match self.adapter {
            Adapter::Fat(fat) => fat.inner().allocated(),
            Adapter::Ext4 { .. } => Set::empty(),
        }
    }

    /// Whether the inode number of every entry is among `allocated`.
    pub open spec fn in_use(fs: FsView, allocated: Set<int>) -> bool {
        forall|l: Location| fs.valid(l) ==> allocated.contains(#[trigger] fs.inode_of(l) as int)
    }

    /// Where the entries keep their inode numbers, the numbers stay in
    /// use.
    proof fn lemma_in_use_kept(before: FsView, after: FsView, allocated: Set<int>)
        requires
            Self::in_use(before, allocated),
            before.keeps_inodes(after),
        ensures
            Self::in_use(after, allocated),
    {
    }

    /// Returns the format whose rules this file system follows.
    pub fn kind(&self) -> (kind: FsKind)
        ensures
            kind == self@.kind,
    {
        match self.adapter {
            Adapter::Fat(_) => FsKind::Fat,
            Adapter::Ext4 { .. } => FsKind::Ext4,
        }
    }

    /// Returns the root directory.
    pub fn root_dir(&self) -> (root: Location)
        ensures
            root == FsView::root(),
    {
        Location { index: 0 }
    }

    /// Tells whether `loc` names an entry that exists.
    pub fn is_valid(&self, loc: Location) -> (valid: bool)
        ensures
            valid == self@.valid(loc),
    {
        loc.index < self.entries.len() && self.entries[loc.index].live
    }

    /// Tells whether `loc` names a directory that exists.
    pub fn is_dir(&self, loc: Location) -> (dir: bool)
        requires
            self.wf(),
        ensures
            dir == self@.is_dir(loc),
    {
        if !self.is_valid(loc) {
            return false;
        }
        assert(self@.entry_ok(loc));
        let node: usize = self.entries[loc.index].node;
        match self.nodes[node].meta.node_type {
            NodeType::Directory => true,
            _ => false,
        }
    }

    /// Returns the form in which this file system stores `name`.
    pub fn stored_name(&self, name: &str) -> (stored: String)
        ensures
            stored@ == self@.stored_name(name@),
    {
        match self.kind() {
            FsKind::Fat => crate::fat::dir::FatDirNode::entry_name(name),
            FsKind::Ext4 => name.to_owned(),
        }
    }

    fn find_child(&self, dir: Location, stored: &String) -> (found: Option<Location>)
        requires
            self.wf(),
            self@.valid(dir),
        ensures
            found == self@.find_child(dir, stored@),
    {
        assert(self@.entry_ok(dir));
        let n: usize = self.entries[dir.index].children.len();
        let mut k: usize = 0;
        while k < n
            invariant
                self.wf(),
                self@.valid(dir),
                n == self@.entries[dir.index as int].children.len(),
                k <= n,
                self@.find_child(dir, stored@) == self@.find_from(dir, stored@, k as int),
            decreases n - k,
        {
            assert(self@.entry_ok(dir));
            assert(self@.child_ok(dir, k as int));
            let c: usize = self.entries[dir.index].children[k];
            if self.entries[c].name == *stored {
                return Some(Location { index: c });
            }
            k += 1;
        }
        None
    }

    /// Returns the directory above `loc`, or `None` for the root and for a
    /// handle that names nothing.
    pub fn parent(&self, loc: Location) -> (parent: Option<Location>)
        ensures
            parent == if self@.valid(loc) {
                self@.parent(loc)
            } else {
                None
            },
    {
        if !self.is_valid(loc) {
            return None;
        }
        match self.entries[loc.index].parent {
            Some(p) => Some(Location { index: p }),
            None => None,
        }
    }

    /// Looks `name` up in the directory `dir`.
    ///
    /// `.` is the directory itself and `..` the directory above it, or
    /// itself at the root. Every other name is compared in stored form with
    /// the names of the entries of `dir`.
    pub fn lookup(&self, dir: Location, name: &str) -> (found: VfsResult<Location>)
        requires
            self.wf(),
        ensures
            found == self@.lookup(dir, name@),
    {
        if !self.is_valid(dir) {
            return Err(VfsError::NotFound);
        }
        proof {
            reveal_strlit(".");
            reveal_strlit("..");
            assert("."@ =~= dot());
            assert(".."@ =~= dotdot());
        }
        if str_eq(name, ".") {
            return Ok(dir);
        }
        if str_eq(name, "..") {
            return match self.parent(dir) {
                Some(p) => Ok(p),
                None => Ok(dir),
            };
        }
        if !self.is_dir(dir) {
            return Err(VfsError::NotADirectory);
        }
        let stored = self.stored_name(name);
        if stored.as_str().as_bytes().len() > MAX_NAME_LEN {
            return Err(VfsError::NameTooLong);
        }
        match self.find_child(dir, &stored) {
            Some(c) => Ok(c),
            None => Err(VfsError::NotFound),
        }
    }
}

impl Filesystem {
    /// Makes an empty file system of the given kind: a root directory and
    /// nothing in it. On FAT the root takes the first inode number that
    /// the allocator hands out, which is 1; on ext4 it has the number 2.
    pub fn new(kind: FsKind) -> (fs: Filesystem)
        ensures
            fs.wf(),
            fs@.kind == kind,
            fs@.entries.len() == 1,
            fs@.entries[0].children.len() == 0,
            fs@.nodes.len() == 1,
            fs@.nodes[0].meta == root_meta(kind, fs@.nodes[0].meta.inode),
            fs@.nodes[0].meta.inode >= 1,
            fs@.nodes[0].meta.inode == match kind {
                FsKind::Fat => crate::fat::fs::FAT_ROOT_INODE,
                FsKind::Ext4 => EXT4_ROOT_INODE,
            },
    {
        let (adapter, meta) = match kind {
            FsKind::Fat => {
                let fat = FatFilesystem::new();
                let root = fat.root_dir();
                let meta = match root.metadata(crate::fat::util::FAT_BLOCK_SIZE) {
                    Ok(meta) => meta,
                    Err(_) => crate::fat::dir::root_metadata(
                        crate::fat::util::FAT_BLOCK_SIZE,
                        root.inode(),
                    ),
                };
                (Adapter::Fat(fat), meta)
            },
            FsKind::Ext4 => (
                Adapter::Ext4 { last_inode: EXT4_ROOT_INODE },
                Metadata {
                    device: 0,
                    inode: EXT4_ROOT_INODE,
                    nlink: 1,
                    mode: NodePermission { bits: EXT4_ROOT_MODE },
                    node_type: NodeType::Directory,
                    uid: 0,
                    gid: 0,
                    size: 0,
                    block_size: EXT4_BLOCK_SIZE,
                    blocks: 0,
                    atime: Duration::default(),
                    mtime: Duration::default(),
                    ctime: Duration::default(),
                },
            ),
        };
        let mut entries: Vec<Entry> = Vec::new();
        entries.push(
            Entry { parent: None, name: String::new(), node: 0, children: Vec::new(), live: true },
        );
        let mut nodes: Vec<Node> = Vec::new();
        nodes.push(Node { meta, content: Vec::new() });
        let fs = Filesystem { adapter, entries, nodes };
        proof {
            let v = fs@;
            assert(v.entry_ok(FsView::root()));
            assert(v.node_ok(0));
            assert(v.ranked(seq![0nat]));
            assert forall|l: Location| v.valid(l) implies l == FsView::root() by {}
        }
        fs
    }

    /// Takes the inode number of the node that is made next. On ext4 that
    /// is the number behind the last one; on FAT the allocator picks it.
    fn fresh_inode(&mut self) -> (inode: VfsResult<u64>)
        requires
            old(self).wf(),
        ensures
            final(self)@ == old(self)@,
            final(self).entries == old(self).entries,
            final(self).nodes == old(self).nodes,
            match inode {
                Ok(inode) => match final(self).adapter {
                    Adapter::Fat(fat) => {
                        &&& old(self)@.kind == FsKind::Fat
                        &&& fat.wf()
                        &&& inode >= 1
                        &&& !old(self).allocated().contains(inode as int)
                        &&& final(self).allocated() == old(self).allocated().insert(inode as int)
                    },
                    Adapter::Ext4 { last_inode } => last_inode == old(self).nodes@.len() + 2
                        && inode == last_inode && old(self)@.kind == FsKind::Ext4,
                },
                Err(e) => e == VfsError::StorageFull && final(self).wf() && old(self)@.lacks_inodes(),
            },
    {
        match &mut self.adapter {
            Adapter::Fat(fat) => Ok(fat.lock().alloc_inode()),
            Adapter::Ext4 { last_inode } => {
                if *last_inode == u64::MAX {
                    return Err(VfsError::StorageFull);
                }
                *last_inode = *last_inode + 1;
                Ok(*last_inode)
            },
        }
    }

    /// Makes the entry `name` in the directory `dir`, as a new, empty node
    /// of type `node_type`.
    ///
    /// The name is kept in stored form, and `mode` is recorded. FAT makes
    /// files and directories only. The call fails, and
    /// changes nothing, where `create_error` says so, and with
    /// `StorageFull` where no inode number is left: on ext4 the numbers go
    /// on from 2 as far as they can be counted, and on FAT they never run
    /// out.
    pub fn create(
        &mut self,
        dir: Location,
        name: &str,
        node_type: NodeType,
        mode: NodePermission,
    ) -> (made: VfsResult<Location>)
        requires
            old(self).wf(),
        ensures
            final(self).wf(),
            old(self)@.creates(dir, name@, node_type, mode, final(self)@, made),
    {
        if !self.is_valid(dir) {
            return Err(VfsError::NotFound);
        }
        if !self.is_dir(dir) {
            return Err(VfsError::NotADirectory);
        }
        let stored = match self.check_name(name) {
            Err(e) => {
                return Err(e);
            },
            Ok(stored) => stored,
        };
        if name.is_empty() || str_contains_char(name, '/') || str_contains_char(name, '\0') {
            return Err(VfsError::InvalidInput);
        }
        match &self.adapter {
            Adapter::Fat(_) => match crate::fat::dir::FatDirNode::create_request(node_type) {
                Ok(_) => {},
                Err(e) => {
                    return Err(e);
                },
            },
            Adapter::Ext4 { .. } => {},
        }
        if self.find_child(dir, &stored).is_some() {
            return Err(VfsError::AlreadyExists);
        }
        let inode = match self.fresh_inode() {
            Ok(inode) => inode,
            Err(e) => {
                return Err(e);
            },
        };
        let meta = self.new_meta(node_type, mode, inode);
        let node: usize = self.nodes.len();
        let index: usize = self.entries.len();
        let ghost before = self@;
        self.nodes.push(Node { meta, content: Vec::new() });
        self.entries.push(
            Entry { parent: Some(dir.index), name: stored, node, children: Vec::new(), live: true },
        );
        self.entries[dir.index].children.push(index);
        let entry_count: usize = self.entries.len();
        let node_count: usize = self.nodes.len();
        proof {
            assert(entry_count == before.entries.len() + 1);
            assert(node_count == before.nodes.len() + 1);
            assert(self@ =~~= before.created(dir, name@, meta));
            if before.kind == FsKind::Fat {
                let allocated = old(self).allocated();
                assert(Self::in_use(before, allocated));
                assert forall|l: Location| before.valid(l) implies #[trigger] before.inode_of(l)
                    != inode by {
                    assert(allocated.contains(before.inode_of(l) as int));
                }
                assert forall|l: Location| self@.valid(l) implies self.allocated().contains(
                    #[trigger] self@.inode_of(l) as int,
                ) by {
                    if l.index != index {
                        assert(before.valid(l));
                        assert(before.entry_ok(l));
                        assert(self@.inode_of(l) == before.inode_of(l));
                    }
                }
            }
            before.lemma_created_well_formed(dir, name@, meta);
        }
        Ok(Location { index })
    }

    fn new_meta(&self, node_type: NodeType, mode: NodePermission, inode: u64) -> (meta: Metadata)
        ensures
            meta == new_node_meta(self@.kind, node_type, mode, inode),
            meta.times_ok(),
    {
        match self.kind() {
            FsKind::Fat => {
                let epoch = DosDateTime {
                    date: DosDate { year: 1980, month: 1, day: 1 },
                    time: DosTime { hour: 0, min: 0, sec: 0, millis: 0 },
                };
                let size: Option<u32> = match node_type {
                    NodeType::Directory => None,
                    _ => Some(0u32),
                };
                let info = FatFileInfo {
                    size,
                    accessed: epoch.date,
                    modified: epoch,
                    created: epoch,
                };
                let mut meta = crate::fat::util::file_metadata(&info, node_type);
                meta.inode = inode;
                meta.mode = mode;
                meta
            },
            FsKind::Ext4 => Metadata {
                device: 0,
                inode,
                nlink: 1,
                mode,
                node_type,
                uid: 0,
                gid: 0,
                size: 0,
                block_size: EXT4_BLOCK_SIZE,
                blocks: 0,
                atime: Duration::default(),
                mtime: Duration::default(),
                ctime: Duration::default(),
            },
        }
    }
}

impl Filesystem {
    fn find_child_position(&self, dir: Location, stored: &String) -> (found: Option<usize>)
        requires
            self.wf(),
            self@.valid(dir),
        ensures
            match found {
                Some(k) => k < self@.entries[dir.index as int].children.len() && self@.find_child(
                    dir,
                    stored@,
                ) == Some(Location { index: self@.entries[dir.index as int].children[k as int] }),
                None => self@.find_child(dir, stored@) is None,
            },
    {
        assert(self@.entry_ok(dir));
        let n: usize = self.entries[dir.index].children.len();
        let mut k: usize = 0;
        while k < n
            invariant
                self.wf(),
                self@.valid(dir),
                n == self@.entries[dir.index as int].children.len(),
                k <= n,
                self@.find_child(dir, stored@) == self@.find_from(dir, stored@, k as int),
            decreases n - k,
        {
            assert(self@.entry_ok(dir));
            assert(self@.child_ok(dir, k as int));
            let c: usize = self.entries[dir.index].children[k];
            if self.entries[c].name == *stored {
                return Some(k);
            }
            k += 1;
        }
        None
    }

    /// Makes sure that `name` can be a name in an operation, and returns
    /// it in stored form.
    fn check_name(&self, name: &str) -> (r: Result<String, VfsError>)
        ensures
            match r {
                Ok(stored) => self@.name_error(name@) is None && stored@ == self@.stored_name(
                    name@,
                ),
                Err(e) => self@.name_error(name@) == Some(e),
            },
    {
        proof {
            reveal_strlit(".");
            reveal_strlit("..");
            assert("."@ =~= dot());
            assert(".."@ =~= dotdot());
        }
        if str_eq(name, ".") || str_eq(name, "..") {
            return Err(VfsError::InvalidInput);
        }
        let stored = self.stored_name(name);
        if stored.as_str().as_bytes().len() > MAX_NAME_LEN {
            return Err(VfsError::NameTooLong);
        }
        Ok(stored)
    }

    /// Removes the entry `name` from the directory `dir`.
    ///
    /// `is_dir` says what the caller means to remove: a directory, which
    /// must be empty, or anything else. The node behind the entry loses one
    /// name. The call fails, and changes nothing, exactly where
    /// `unlink_error` says so.
    pub fn unlink(&mut self, dir: Location, name: &str, is_dir: bool) -> (r: VfsResult<()>)
        requires
            old(self).wf(),
        ensures
            final(self).wf(),
            match r {
                Ok(_) => {
                    &&& old(self)@.unlink_error(dir, name@, is_dir) is None
                    &&& final(self)@ == old(self)@.unlinked(dir, name@)
                },
                Err(e) => old(self)@.unlink_error(dir, name@, is_dir) == Some(e) && final(self)@
                    == old(self)@,
            },
    {
        if !self.is_valid(dir) {
            return Err(VfsError::NotFound);
        }
        if !self.is_dir(dir) {
            return Err(VfsError::NotADirectory);
        }
        let stored = match self.check_name(name) {
            Err(e) => {
                return Err(e);
            },
            Ok(stored) => stored,
        };
        let k: usize = match self.find_child_position(dir, &stored) {
            None => {
                return Err(VfsError::NotFound);
            },
            Some(k) => k,
        };
        assert(self@.entry_ok(dir));
        assert(self@.child_ok(dir, k as int));
        let c: usize = self.entries[dir.index].children[k];
        let target = Location { index: c };
        let target_is_dir = self.is_dir(target);
        if target_is_dir && !is_dir {
            return Err(VfsError::IsADirectory);
        }
        if !target_is_dir && is_dir {
            return Err(VfsError::NotADirectory);
        }
        if self.entries[c].children.len() > 0 {
            return Err(VfsError::DirectoryNotEmpty);
        }
        let ghost before = self@;
        proof {
            before.lemma_position(target);
            assert(before.entry_ok(target));
        }
        self.remove_entry(target, k);
        Ok(())
    }

    /// Takes the entry `loc`, which stands at position `k` of its parent,
    /// out of the tree.
    fn remove_entry(&mut self, loc: Location, k: usize)
        requires
            old(self).wf(),
            old(self)@.valid(loc),
            old(self)@.entries[loc.index as int].parent is Some,
            old(self)@.entries[loc.index as int].children.len() == 0,
            old(self)@.position(loc) == k,
        ensures
            final(self).wf(),
            final(self)@ == old(self)@.without_entry(loc),
    {
        let ghost before = self@;
        proof {
            before.lemma_position(loc);
            assert(before.entry_ok(loc));
        }
        let dir: usize = match self.entries[loc.index].parent {
            Some(p) => p,
            None => 0,
        };
        let node: usize = self.entries[loc.index].node;
        assert(before.entry_ok(Location { index: dir }));
        self.entries[dir].children.remove(k);
        self.entries[loc.index].live = false;
        if self.nodes[node].meta.nlink > 0 {
            self.nodes[node].meta.nlink = self.nodes[node].meta.nlink - 1;
        }
        if self.nodes[node].meta.nlink == 0 {
            let inode: u64 = self.nodes[node].meta.inode;
            match &mut self.adapter {
                Adapter::Fat(fat) => {
                    fat.lock().release_inode(inode);
                },
                Adapter::Ext4 { .. } => {},
            }
        }
        proof {
            assert(self@ =~~= before.without_entry(loc));
            before.lemma_without_entry_well_formed(loc);
            if before.kind == FsKind::Fat {
                let allocated = old(self).allocated();
                assert(Self::in_use(before, allocated));
                Self::lemma_in_use_kept(before, self@, allocated);
                assert forall|l: Location| self@.valid(l) implies self.allocated().contains(
                    #[trigger] self@.inode_of(l) as int,
                ) by {
                    assert(before.valid(l) && l != loc);
                    assert(before.inode_of(l) != before.inode_of(loc));
                }
            }
        }
    }
}

impl Filesystem {
    /// Returns the name of the entry `loc` in stored form; the root, and a
    /// handle that names nothing, have the empty name.
    pub fn name(&self, loc: Location) -> (name: String)
        ensures
            name@ == if self@.valid(loc) {
                self@.entries[loc.index as int].name
            } else {
                Seq::<char>::empty()
            },
    {
        if !self.is_valid(loc) {
            return String::new();
        }
        self.entries[loc.index].name.clone()
    }

    /// Returns a snapshot of the metadata of the node that `loc` names.
    pub fn metadata(&self, loc: Location) -> (r: VfsResult<Metadata>)
        requires
            self.wf(),
        ensures
            r == if self@.valid(loc) {
                Ok::<Metadata, VfsError>(self@.node_of(loc).meta)
            } else {
                Err::<Metadata, VfsError>(VfsError::NotFound)
            },
    {
        if !self.is_valid(loc) {
            return Err(VfsError::NotFound);
        }
        assert(self@.entry_ok(loc));
        let node: usize = self.entries[loc.index].node;
        Ok(self.nodes[node].meta)
    }

    /// Makes sure that `loc` names a directory.
    pub fn check_is_dir(&self, loc: Location) -> (r: VfsResult<()>)
        requires
            self.wf(),
        ensures
            r == if !self@.valid(loc) {
                Err::<(), VfsError>(VfsError::NotFound)
            } else if !self@.is_dir(loc) {
                Err::<(), VfsError>(VfsError::NotADirectory)
            } else {
                Ok::<(), VfsError>(())
            },
    {
        if !self.is_valid(loc) {
            Err(VfsError::NotFound)
        } else if !self.is_dir(loc) {
            Err(VfsError::NotADirectory)
        } else {
            Ok(())
        }
    }

    /// Makes `name` in the directory `dir` as another name of the node that
    /// `target` names.
    ///
    /// The call fails, and changes nothing, exactly where `link_error` says
    /// so: always on FAT.
    pub fn link(&mut self, dir: Location, name: &str, target: Location) -> (made: VfsResult<
        Location,
    >)
        requires
            old(self).wf(),
        ensures
            final(self).wf(),
            match made {
                Ok(loc) => {
                    &&& old(self)@.link_error(dir, name@, target) is None
                    &&& loc.index == old(self)@.entries.len()
                    &&& final(self)@ == old(self)@.linked(dir, name@, target)
                },
                Err(e) => old(self)@.link_error(dir, name@, target) == Some(e) && final(self)@
                    == old(self)@,
            },
    {
        match &self.adapter {
            Adapter::Fat(fat) => match fat.root_dir().link(name) {
                Ok(_) => {},
                Err(e) => {
                    return Err(e);
                },
            },
            Adapter::Ext4 { .. } => {},
        }
        if !self.is_valid(dir) {
            return Err(VfsError::NotFound);
        }
        if !self.is_dir(dir) {
            return Err(VfsError::NotADirectory);
        }
        let stored = match self.check_name(name) {
            Err(e) => {
                return Err(e);
            },
            Ok(stored) => stored,
        };
        if name.is_empty() || str_contains_char(name, '/') || str_contains_char(name, '\0') {
            return Err(VfsError::InvalidInput);
        }
        if !self.is_valid(target) {
            return Err(VfsError::NotFound);
        }
        if self.is_dir(target) {
            return Err(VfsError::PermissionDenied);
        }
        if self.find_child(dir, &stored).is_some() {
            return Err(VfsError::AlreadyExists);
        }
        assert(self@.entry_ok(target));
        let node: usize = self.entries[target.index].node;
        if self.nodes[node].meta.nlink == u64::MAX {
            return Err(VfsError::StorageFull);
        }
        let index: usize = self.entries.len();
        let ghost before = self@;
        self.nodes[node].meta.nlink = self.nodes[node].meta.nlink + 1;
        self.entries.push(
            Entry { parent: Some(dir.index), name: stored, node, children: Vec::new(), live: true },
        );
        self.entries[dir.index].children.push(index);
        let entry_count: usize = self.entries.len();
        proof {
            assert(entry_count == before.entries.len() + 1);
            assert(self@ =~~= before.linked(dir, name@, target));
            before.lemma_linked_well_formed(dir, name@, target);
        }
        Ok(Location { index })
    }

    /// Tells whether `above` is `below` or a directory on the way from
    /// `below` up to the root. Nothing lies above an entry that does not
    /// exist.
    pub fn is_ancestor_of(&self, above: Location, below: Location) -> (r: bool)
        requires
            self.wf(),
        ensures
            r == (self@.valid(below) && self@.is_ancestor(above, below)),
    {
        if !self.is_valid(below) {
            return false;
        }
        let mut cur = below;
        loop
            invariant
                self.wf(),
                self@.valid(cur),
                self@.valid(below),
                self@.is_ancestor(above, below) == self@.is_ancestor(above, cur),
            decreases self@.rank()[cur.index as int],
        {
            if cur.index == above.index {
                return true;
            }
            match self.entries[cur.index].parent {
                Some(p) => {
                    proof {
                        self@.lemma_parent(cur);
                    }
                    cur = Location { index: p };
                },
                None => {
                    return false;
                },
            }
        }
    }

    /// Returns the absolute path of `loc`: `/` for the root, and otherwise
    /// the names from the root down to `loc`, each with a `/` before it.
    pub fn absolute_path(&self, loc: Location) -> (r: VfsResult<String>)
        requires
            self.wf(),
        ensures
            match r {
                Ok(path) => self@.valid(loc) && path@ == path_text(self@.absolute_names(loc)),
                Err(e) => !self@.valid(loc) && e == VfsError::NotFound,
            },
    {
        if !self.is_valid(loc) {
            return Err(VfsError::NotFound);
        }
        let mut up: Vec<usize> = Vec::new();
        let mut cur = loc;
        loop
            invariant
                self.wf(),
                self@.valid(cur),
                forall|i: int| 0 <= i < up.len() ==> #[trigger] up[i] < self@.entries.len(),
                Seq::new(up@.len(), |i: int| self@.entries[up@[i] as int].name) + self@.names_up(cur)
                    == self@.names_up(loc),
            ensures
                self@.entries[cur.index as int].parent is None,
            decreases self@.rank()[cur.index as int],
        {
            match self.entries[cur.index].parent {
                Some(p) => {
                    proof {
                        self@.lemma_parent(cur);
                        let collected = Seq::new(up@.len(), |i: int| self@.entries[up@[i] as int].name);
                        let next = Seq::new(
                            up@.push(cur.index).len(),
                            |i: int| self@.entries[up@.push(cur.index)[i] as int].name,
                        );
                        assert(next =~= collected + seq![self@.entries[cur.index as int].name]);
                        assert(next + self@.names_up(Location { index: p }) =~= collected
                            + self@.names_up(cur));
                    }
                    up.push(cur.index);
                    cur = Location { index: p };
                },
                None => {
                    break;
                },
            }
        }
        let ghost names = self@.absolute_names(loc);
        proof {
            let collected = Seq::new(up@.len(), |i: int| self@.entries[up@[i] as int].name);
            assert(self@.names_up(cur) =~= Seq::<Seq<char>>::empty());
            assert(collected =~= self@.names_up(loc));
            assert(names.len() == up@.len());
        }
        if up.len() == 0 {
            proof {
                reveal_strlit("/");
                assert("/"@ =~= seq!['/']);
            }
            return Ok("/".to_owned());
        }
        let mut path = String::new();
        let mut i: usize = up.len();
        proof {
            assert(names.subrange(0, 0) =~= Seq::<Seq<char>>::empty());
        }
        while i > 0
            invariant
                self.wf(),
                i <= up.len(),
                names == self@.absolute_names(loc),
                names.len() == up@.len(),
                forall|j: int| 0 <= j < up.len() ==> #[trigger] up[j] < self@.entries.len(),
                forall|j: int|
                    0 <= j < up.len() ==> self@.entries[#[trigger] up[j] as int].name == names[up.len()
                        - 1 - j],
                path@ == join_names(names.subrange(0, up.len() - i)),
            decreases i,
        {
            i -= 1;
            proof {
                reveal_strlit("/");
                assert("/"@ =~= seq!['/']);
                let done = names.subrange(0, up.len() - i);
                assert(done.drop_last() =~= names.subrange(0, up.len() - i - 1));
                assert(done.last() == names[up.len() - 1 - i]);
            }
            path.append("/");
            path.append(self.entries[up[i]].name.as_str());
        }
        proof {
            assert(names.subrange(0, up.len() as int) =~= names);
        }
        Ok(path)
    }
}

impl Filesystem {
    /// Takes the entry `src`, which stands at position `k` of its parent,
    /// to the end of the list of `dst_dir`, under the stored name `stored`.
    fn move_entry(&mut self, src: Location, k: usize, dst_dir: Location, stored: String)
        requires
            old(self).wf(),
            old(self)@.valid(src),
            old(self)@.valid(dst_dir),
            old(self)@.entries[src.index as int].parent is Some,
            old(self)@.position(src) == k,
            src != dst_dir,
        ensures
            final(self)@ == old(self)@.moved(src, dst_dir, stored@),
            final(self).adapter_ready(),
    {
        let ghost before = self@;
        proof {
            before.lemma_position(src);
            before.lemma_parent(src);
        }
        let parent: usize = match self.entries[src.index].parent {
            Some(p) => p,
            None => 0,
        };
        self.entries[parent].children.remove(k);
        self.entries[dst_dir.index].children.push(src.index);
        self.entries[src.index].parent = Some(dst_dir.index);
        self.entries[src.index].name = stored;
        proof {
            assert(self@ =~~= before.moved(src, dst_dir, stored@));
            if before.kind == FsKind::Fat {
                assert forall|l: Location| self@.valid(l) implies before.valid(l)
                    && #[trigger] self@.inode_of(l) == before.inode_of(l) by {}
                Self::lemma_in_use_kept(before, self@, self.allocated());
            }
        }
    }

    /// Makes the entry `src_name` of `src_dir` the entry `dst_name` of
    /// `dst_dir`.
    ///
    /// An entry that is in the way is removed first; where the new name
    /// names the entry itself, nothing happens. The entry keeps its handle. The
    /// call fails, and changes nothing, exactly where `rename_error` says
    /// so.
    pub fn rename(
        &mut self,
        src_dir: Location,
        src_name: &str,
        dst_dir: Location,
        dst_name: &str,
    ) -> (r: VfsResult<()>)
        requires
            old(self).wf(),
        ensures
            final(self).wf(),
            match r {
                Ok(_) => old(self)@.rename_error(src_dir, src_name@, dst_dir, dst_name@) is None
                    && final(self)@ == old(self)@.renamed(src_dir, src_name@, dst_dir, dst_name@),
                Err(e) => old(self)@.rename_error(src_dir, src_name@, dst_dir, dst_name@) == Some(
                    e,
                ) && final(self)@ == old(self)@,
            },
    {
        if !self.is_valid(src_dir) || !self.is_valid(dst_dir) {
            return Err(VfsError::NotFound);
        }
        if !self.is_dir(src_dir) {
            return Err(VfsError::NotADirectory);
        }
        let stored_src = match self.check_name(src_name) {
            Err(e) => {
                return Err(e);
            },
            Ok(stored) => stored,
        };
        let ghost before = self@;
        let ks: usize = match self.find_child_position(src_dir, &stored_src) {
            None => {
                return Err(VfsError::NotFound);
            },
            Some(k) => k,
        };
        if src_dir.index != dst_dir.index && self.is_ancestor_of(src_dir, dst_dir) {
            return Err(VfsError::InvalidInput);
        }
        if !self.is_dir(dst_dir) {
            return Err(VfsError::NotADirectory);
        }
        let stored = match self.check_name(dst_name) {
            Err(e) => {
                return Err(e);
            },
            Ok(stored) => stored,
        };
        if dst_name.is_empty() || str_contains_char(dst_name, '/') || str_contains_char(
            dst_name,
            '\0',
        ) {
            return Err(VfsError::InvalidInput);
        }
        assert(before.entry_ok(src_dir));
        assert(before.entry_ok(dst_dir));
        assert(before.child_ok(src_dir, ks as int));
        let src = Location { index: self.entries[src_dir.index].children[ks] };
        match self.find_child_position(dst_dir, &stored) {
            None => {},
            Some(kd) => {
                assert(before.child_ok(dst_dir, kd as int));
                let dst = Location { index: self.entries[dst_dir.index].children[kd] };
                if self.is_dir(dst) && self.entries[dst.index].children.len() > 0 {
                    return Err(VfsError::DirectoryNotEmpty);
                }
                if dst.index == src.index {
                    return Ok(());
                }
                proof {
                    before.lemma_position(dst);
                    assert(before.entry_ok(dst));
                    assert(dst != src);
                }
                self.remove_entry(dst, kd);
            },
        }
        let ghost mid = self@;
        proof {
            before.lemma_find_from(src_dir, stored_src@, 0);
            assert(mid.valid(src));
            assert(mid.entries[src.index as int].parent == Some(src_dir.index));
            assert(mid.entries[src.index as int].name == stored_src@);
            assert(mid.valid(src_dir));
            assert(mid.entry_ok(src_dir));
            mid.lemma_position(src);
            mid.lemma_find_child_at(src_dir, mid.position(src), 0);
        }
        let k: usize = match self.find_child_position(src_dir, &stored_src) {
            Some(k) => k,
            None => {
                proof {
                    assert(false);
                }
                return Err(VfsError::NotFound);
            },
        };
        proof {
            before.lemma_renamed_well_formed(src_dir, src_name@, dst_dir, dst_name@);
        }
        self.move_entry(src, k, dst_dir, stored);
        Ok(())
    }
}

/// One entry of a directory as a listing shows it.
#[derive(Clone, Debug)]
pub struct ReadDirEntry {
    /// The name in stored form.
    pub name: String,
    /// The inode number of the node.
    pub ino: u64,
    /// The type of the node.
    pub node_type: NodeType,
    /// Where a listing goes on after this entry.
    pub offset: u64,
}

impl View for ReadDirEntry {
    type V = ReadDirEntryView;

    open spec fn view(&self) -> ReadDirEntryView {
        ReadDirEntryView {
            name: self.name@,
            ino: self.ino,
            node_type: self.node_type,
            offset: self.offset,
        }
    }
}

/// The listing entries as plain values.
pub open spec fn entry_views(entries: Seq<ReadDirEntry>) -> Seq<ReadDirEntryView> {
    Seq::new(entries.len(), |i: int| entries[i]@)
}

impl Filesystem {
    /// Returns the handle of the node that `loc` names.
    pub fn node_id(&self, loc: Location) -> (r: VfsResult<NodeId>)
        requires
            self.wf(),
        ensures
            match r {
                Ok(node) => self@.valid(loc) && node.index == self@.entries[loc.index as int].node
                    && node.index < self@.nodes.len(),
                Err(e) => !self@.valid(loc) && e == VfsError::NotFound,
            },
    {
        if !self.is_valid(loc) {
            return Err(VfsError::NotFound);
        }
        assert(self@.entry_ok(loc));
        Ok(NodeId { index: self.entries[loc.index].node })
    }

    /// Returns the number of nodes that were ever made.
    pub fn node_count(&self) -> (count: usize)
        ensures
            count == self@.nodes.len(),
    {
        self.nodes.len()
    }

    /// Returns a snapshot of the metadata of `node`.
    pub fn node_metadata(&self, node: NodeId) -> (r: VfsResult<Metadata>)
        ensures
            match r {
                Ok(meta) => node.index < self@.nodes.len() && meta == self@.nodes[node.index
                    as int].meta,
                Err(e) => node.index >= self@.nodes.len() && e == VfsError::NotFound,
            },
    {
        if node.index >= self.nodes.len() {
            return Err(VfsError::NotFound);
        }
        Ok(self.nodes[node.index].meta)
    }

    fn check_file(&self, node: NodeId) -> (r: VfsResult<()>)
        ensures
            match r {
                Ok(_) => self@.file_error(node) is None,
                Err(e) => self@.file_error(node) == Some(e),
            },
    {
        if node.index >= self.nodes.len() {
            return Err(VfsError::NotFound);
        }
        match self.nodes[node.index].meta.node_type {
            NodeType::Directory => Err(VfsError::IsADirectory),
            _ => Ok(()),
        }
    }

    /// Reads at most `max` bytes of `node` from `offset` on; behind the end
    /// there is nothing to read.
    pub fn read_at(&self, node: NodeId, offset: u64, max: usize) -> (r: VfsResult<Vec<u8>>)
        ensures
            match r {
                Ok(bytes) => {
                    &&& self@.file_error(node) is None
                    &&& bytes@ == self@.read_at(node, offset, max)
                    &&& self@.content(node).len() <= usize::MAX
                },
                Err(e) => self@.file_error(node) == Some(e),
            },
    {
        match self.check_file(node) {
            Err(e) => {
                return Err(e);
            },
            Ok(_) => {},
        }
        let len: usize = self.nodes[node.index].content.len();
        let start: usize = if offset <= len as u64 {
            offset as usize
        } else {
            len
        };
        let end: usize = if max <= len - start {
            start + max
        } else {
            len
        };
        let bytes = slice_to_vec(&self.nodes[node.index].content.as_slice()[start..end]);
        Ok(bytes)
    }

    fn max_size(&self) -> (max: usize)
        ensures
            max == max_file_size(self@.kind),
    {
        match self.kind() {
            FsKind::Fat => if usize::MAX as u64 <= u32::MAX as u64 {
                usize::MAX
            } else {
                u32::MAX as usize
            },
            FsKind::Ext4 => usize::MAX,
        }
    }

    fn blocks(&self, size: u64) -> (blocks: u64)
        ensures
            blocks == blocks_for(self@.kind, size),
    {
        match self.kind() {
            FsKind::Fat => size / 512,
            FsKind::Ext4 => if size % 512 == 0 {
                size / 512
            } else {
                size / 512 + 1
            },
        }
    }

    /// Writes `data` into `node` at `offset` and returns how many bytes
    /// were written: all of them.
    ///
    /// A write behind the end fills the gap with zeros. The call fails,
    /// and changes nothing, where the node holds no bytes and where the
    /// file would grow beyond the largest size.
    pub fn write_at(&mut self, node: NodeId, offset: u64, data: &[u8]) -> (r: VfsResult<usize>)
        requires
            old(self).wf(),
        ensures
            final(self).wf(),
            match r {
                Ok(n) => {
                    &&& old(self)@.size_error(node, offset + data@.len()) is None
                    &&& n == data@.len()
                    &&& final(self)@ == old(self)@.with_content(
                        node,
                        written(old(self)@.content(node), offset as int, data@),
                    )
                },
                Err(e) => {
                    &&& old(self)@.size_error(node, offset + data@.len()) == Some(e)
                    &&& final(self)@ == old(self)@
                },
            },
    {
        match self.check_file(node) {
            Err(e) => {
                return Err(e);
            },
            Ok(_) => {},
        }
        let max: usize = self.max_size();
        if offset > max as u64 || data.len() > max - offset as usize {
            return Err(VfsError::StorageFull);
        }
        let start: usize = offset as usize;
        let end: usize = start + data.len();
        let ghost before = self@;
        let ghost old_content = before.content(node);
        if start > self.nodes[node.index].content.len() {
            self.nodes[node.index].content.resize(start, 0u8);
            proof {
                assert(self.nodes[node.index as int].content@ =~= old_content + zeros(
                    start - old_content.len(),
                ));
            }
        }
        let ghost padded = self.nodes[node.index as int].content@;
        if end < self.nodes[node.index].content.len() {
            let mut tail = self.nodes[node.index].content.split_off(end);
            self.nodes[node.index].content.truncate(start);
            self.nodes[node.index].content.extend_from_slice(data);
            self.nodes[node.index].content.append(&mut tail);
        } else {
            self.nodes[node.index].content.truncate(start);
            self.nodes[node.index].content.extend_from_slice(data);
        }
        let size: u64 = self.nodes[node.index].content.len() as u64;
        let blocks = self.blocks(size);
        self.nodes[node.index].meta.size = size;
        self.nodes[node.index].meta.blocks = blocks;
        proof {
            let content = written(old_content, offset as int, data@);
            assert(self.nodes[node.index as int].content@ =~= content);
            assert(self@ =~~= before.with_content(node, content));
            before.lemma_with_content_well_formed(node, content);
            if before.kind == FsKind::Fat {
                Self::lemma_in_use_kept(before, self@, self.allocated());
            }
        }
        Ok(data.len())
    }

    /// Cuts `node` to `len` bytes, or fills it with zeros up to `len`.
    ///
    /// The call fails, and changes nothing, where the node holds no bytes
    /// and where `len` is beyond the largest size.
    pub fn set_len(&mut self, node: NodeId, len: u64) -> (r: VfsResult<()>)
        requires
            old(self).wf(),
        ensures
            final(self).wf(),
            match r {
                Ok(_) => {
                    &&& old(self)@.size_error(node, len as int) is None
                    &&& final(self)@ == old(self)@.with_content(
                        node,
                        resized(old(self)@.content(node), len as int),
                    )
                },
                Err(e) => old(self)@.size_error(node, len as int) == Some(e) && final(self)@
                    == old(self)@,
            },
    {
        match self.check_file(node) {
            Err(e) => {
                return Err(e);
            },
            Ok(_) => {},
        }
        let max: usize = self.max_size();
        if len > max as u64 {
            return Err(VfsError::StorageFull);
        }
        let ghost before = self@;
        let ghost old_content = before.content(node);
        self.nodes[node.index].content.resize(len as usize, 0u8);
        let size: u64 = self.nodes[node.index].content.len() as u64;
        let blocks = self.blocks(size);
        self.nodes[node.index].meta.size = size;
        self.nodes[node.index].meta.blocks = blocks;
        proof {
            let content = resized(old_content, len as int);
            assert(self.nodes[node.index as int].content@ =~= content);
            assert(self@ =~~= before.with_content(node, content));
            before.lemma_with_content_well_formed(node, content);
            if before.kind == FsKind::Fat {
                Self::lemma_in_use_kept(before, self@, self.allocated());
            }
        }
        Ok(())
    }

    /// Lists the directory `dir` from `offset` on, at most `limit` entries.
    ///
    /// The offset of an entry is the place behind it: handed to the next
    /// call, it makes the listing go on with the entry that follows. The
    /// listing holds neither `.` nor `..`.
    pub fn read_dir(&self, dir: Location, offset: u64, limit: usize) -> (r: VfsResult<
        Vec<ReadDirEntry>,
    >)
        requires
            self.wf(),
        ensures
            match r {
                Ok(entries) => self@.is_dir(dir) && entry_views(entries@) == self@.dir_entries(
                    dir,
                    offset,
                    limit,
                ),
                Err(e) => !self@.is_dir(dir) && e == if self@.valid(dir) {
                    VfsError::NotADirectory
                } else {
                    VfsError::NotFound
                },
            },
    {
        if !self.is_valid(dir) {
            return Err(VfsError::NotFound);
        }
        if !self.is_dir(dir) {
            return Err(VfsError::NotADirectory);
        }
        let count: usize = self.entries[dir.index].children.len();
        let start: usize = if offset <= count as u64 {
            offset as usize
        } else {
            count
        };
        let end: usize = if limit <= count - start {
            start + limit
        } else {
            count
        };
        let mut listed: Vec<ReadDirEntry> = Vec::new();
        let mut k: usize = start;
        while k < end
            invariant
                self.wf(),
                self@.valid(dir),
                start <= k <= end <= count,
                count == self@.entries[dir.index as int].children.len(),
                listed@.len() == k - start,
                forall|i: int| 0 <= i < listed@.len() ==> (#[trigger] listed@[i])@ == self@.dir_entry(
                    dir,
                    start + i,
                ),
            decreases end - k,
        {
            assert(self@.entry_ok(dir));
            assert(self@.child_ok(dir, k as int));
            let c: usize = self.entries[dir.index].children[k];
            assert(self@.entry_ok(Location { index: c }));
            let node: usize = self.entries[c].node;
            listed.push(
                ReadDirEntry {
                    name: self.entries[c].name.clone(),
                    ino: self.nodes[node].meta.inode,
                    node_type: self.nodes[node].meta.node_type,
                    offset: (k + 1) as u64,
                },
            );
            k += 1;
        }
        proof {
            assert(entry_views(listed@) =~= self@.dir_entries(dir, offset, limit));
        }
        Ok(listed)
    }
}

} // verus!
