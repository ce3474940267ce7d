//! A file system as a mathematical value: entries and nodes as plain
//! sequences, what each operation makes of them, and the lemmas that say
//! that a tree stays a tree.

use crate::error::{VfsError, VfsResult};
use crate::fat::util::{spec_file_metadata, DosDate, DosDateTime, DosTime, FatFileInfo};
use crate::strings::{ascii_lower, lemma_ascii_lower_idempotent};
use crate::types::{Duration, Metadata, NodePermission, NodeType};
use vstd::prelude::*;
use vstd::set_lib::{lemma_int_range, lemma_len_subset, set_int_range};

verus! {

/// The on-disk format whose rules a file system follows.
#[derive(Clone, Copy, Debug, PartialEq, Eq, Structural)]
pub enum FsKind {
    /// FAT: names compare without regard to ASCII case and are stored in
    /// lower case, only files and directories exist, and there are no hard
    /// links.
    Fat,
    /// ext4: names are kept as given, every node type exists, and files can
    /// have several names.
    Ext4,
}

/// A handle to an entry of a file system.
#[derive(Clone, Copy, Debug, PartialEq, Eq, Structural)]
pub struct Location {
    pub index: usize,
}

/// The longest name, in bytes, that a directory takes.
pub const MAX_NAME_LEN: usize = 255;

/// The name `.`.
pub open spec fn dot() -> Seq<char> {
    seq!['.']
}

/// The name `..`.
pub open spec fn dotdot() -> Seq<char> {
    seq!['.', '.']
}

/// Whether a name is longer than a directory takes.
pub open spec fn name_too_long(name: Seq<char>) -> bool {
    vstd::utf8::encode_utf8(name).len() > MAX_NAME_LEN
}

/// What an entry is, as a plain value.
#[verifier::ext_equal]
pub struct EntryView {
    /// The directory that holds the entry; `None` for the root.
    pub parent: Option<usize>,
    /// The name under which the directory holds it, in stored form.
    pub name: Seq<char>,
    /// The node that the entry names.
    pub node: usize,
    /// The entries of this directory, in the order in which it lists them.
    pub children: Seq<usize>,
    /// Whether the entry exists; a removed entry stays in its slot.
    pub live: bool,
}

/// What a node is, as a plain value.
#[verifier::ext_equal]
pub struct NodeView {
    pub meta: Metadata,
    pub content: Seq<u8>,
}

/// A file system as a mathematical value.
#[verifier::ext_equal]
pub struct FsView {
    pub kind: FsKind,
    pub entries: Seq<EntryView>,
    pub nodes: Seq<NodeView>,
}

impl FsView {
    /// The root entry.
    pub open spec fn root() -> Location {
        Location { index: 0 }
    }

    /// Whether `loc` names an entry that exists.
    pub open spec fn valid(self, loc: Location) -> bool {
        loc.index < self.entries.len() && self.entries[loc.index as int].live
    }

    /// The node that `loc` names.
    pub open spec fn node_of(self, loc: Location) -> NodeView {
        self.nodes[self.entries[loc.index as int].node as int]
    }

    /// The inode number of the node that `loc` names.
    pub open spec fn inode_of(self, loc: Location) -> u64 {
        self.node_of(loc).meta.inode
    }

    /// Whether no two entries have the same inode number: then no two
    /// share a node.
    pub open spec fn inodes_distinct(self) -> bool {
        forall|a: Location, b: Location|
            self.valid(a) && self.valid(b) && a != b ==> #[trigger] self.inode_of(a)
                != #[trigger] self.inode_of(b)
    }

    /// Whether `inode` is the number of no entry.
    pub open spec fn inode_is_free(self, inode: u64) -> bool {
        forall|l: Location| self.valid(l) ==> #[trigger] self.inode_of(l) != inode
    }

    /// Whether every entry of `after` is an entry of this file system and
    /// has the inode number that it has here.
    pub open spec fn keeps_inodes(self, after: FsView) -> bool {
        &&& after.kind == self.kind
        &&& forall|l: Location|
            after.valid(l) ==> self.valid(l) && #[trigger] after.inode_of(l) == self.inode_of(l)
    }

    /// Where the entries keep their inode numbers, the numbers stay
    /// distinct.
    pub proof fn lemma_inodes_kept(self, after: FsView)
        requires
            self.kind == FsKind::Fat ==> self.inodes_distinct(),
            self.keeps_inodes(after),
        ensures
            after.kind == FsKind::Fat ==> after.inodes_distinct(),
    {
    }

    /// Whether `loc` names a directory that exists.
    pub open spec fn is_dir(self, loc: Location) -> bool {
        self.valid(loc) && self.node_of(loc).meta.node_type == NodeType::Directory
    }

    /// The form in which this file system stores a name.
    pub open spec fn stored_name(self, name: Seq<char>) -> Seq<char> {
        match self.kind {
            FsKind::Fat => ascii_lower(name),
            FsKind::Ext4 => name,
        }
    }

    /// The first entry of `dir`, from position `from` on, whose stored name
    /// is `stored`.
    pub open spec fn find_from(self, dir: Location, stored: Seq<char>, from: int) -> Option<
        Location,
    >
        decreases self.entries[dir.index as int].children.len() - from,
    {
        let children = self.entries[dir.index as int].children;
        if from < 0 || from >= children.len() {
            None
        } else if self.entries[children[from] as int].name == stored {
            Some(Location { index: children[from] })
        } else {
            self.find_from(dir, stored, from + 1)
        }
    }

    /// The entry of `dir` whose stored name is `stored`.
    pub open spec fn find_child(self, dir: Location, stored: Seq<char>) -> Option<Location> {
        self.find_from(dir, stored, 0)
    }

    /// The directory above `loc`; the root, and only the root, has none.
    pub open spec fn parent(self, loc: Location) -> Option<Location> {
        match self.entries[loc.index as int].parent {
            Some(p) => Some(Location { index: p }),
            None => None,
        }
    }

    /// What looking `name` up in `dir` gives.
    pub open spec fn lookup(self, dir: Location, name: Seq<char>) -> VfsResult<Location> {
        if !self.valid(dir) {
            Err(VfsError::NotFound)
        } else if name == dot() {
            Ok(dir)
        } else if name == dotdot() {
            match self.parent(dir) {
                Some(p) => Ok(p),
                None => Ok(dir),
            }
        } else if !self.is_dir(dir) {
            Err(VfsError::NotADirectory)
        } else if name_too_long(self.stored_name(name)) {
            Err(VfsError::NameTooLong)
        } else {
            match self.find_child(dir, self.stored_name(name)) {
                Some(c) => Ok(c),
                None => Err(VfsError::NotFound),
            }
        }
    }

    /// Whether `name` can be the name of an entry: not empty, without `/`
    /// and NUL, and neither `.` nor `..`.
    pub open spec fn valid_name(name: Seq<char>) -> bool {
        &&& name.len() > 0
        &&& !name.contains('/')
        &&& !name.contains('\0')
        &&& name != dot()
        &&& name != dotdot()
    }

    /// Whether position `k` of the list of `dir` holds an entry that exists
    /// and has `dir` as its parent.
    pub open spec fn child_ok(self, dir: Location, k: int) -> bool {
        let c = Location { index: self.entries[dir.index as int].children[k] };
        self.valid(c) && self.entries[c.index as int].parent == Some(dir.index)
    }

    /// Whether the entry `loc` fits into the tree.
    pub open spec fn entry_ok(self, loc: Location) -> bool {
        let ent = self.entries[loc.index as int];
        &&& ent.node < self.nodes.len()
        &&& (loc.index != 0 ==> ent.parent is Some)
        &&& (ent.parent matches Some(p) ==> {
            &&& loc.index != 0
            &&& self.is_dir(Location { index: p })
            &&& self.entries[p as int].children.contains(loc.index)
            &&& Self::valid_name(ent.name)
            &&& self.stored_name(ent.name) == ent.name
            &&& !name_too_long(ent.name)
        })
        &&& (!self.is_dir(loc) ==> ent.children.len() == 0)
        &&& (forall|k: int| 0 <= k < ent.children.len() ==> #[trigger] self.child_ok(loc, k))
        &&& (forall|j: int, k: int|
            0 <= j < k < ent.children.len() ==> self.entries[#[trigger] ent.children[j] as int].name
                != self.entries[#[trigger] ent.children[k] as int].name)
    }

    /// Whether node `n` has blocks of some size, timestamps with less than
    /// a second of nanoseconds, and records the size of its content; a
    /// directory has no content, and its recorded size is that of its own
    /// blocks.
    pub open spec fn node_ok(self, n: int) -> bool {
        let node = self.nodes[n];
        &&& node.meta.block_size > 0
        &&& node.meta.times_ok()
        &&& if node.meta.node_type == NodeType::Directory {
            node.content.len() == 0
        } else {
            node.meta.size == node.content.len() && node.content.len() <= usize::MAX
        }
    }

    /// Whether `rank` grows along every step from a directory to an entry in
    /// it.
    pub open spec fn ranked(self, rank: Seq<nat>) -> bool {
        &&& rank.len() == self.entries.len()
        &&& forall|e: int|
            0 <= e < self.entries.len() && self.entries[e].live ==> (
            #[trigger] self.entries[e].parent matches Some(p) ==> p < rank.len() && rank[p as int]
                < rank[e])
    }

    /// A rank that grows from each directory to its entries; it exists in
    /// every well-formed file system.
    pub open spec fn rank(self) -> Seq<nat> {
        choose|rank: Seq<nat>| self.ranked(rank)
    }

    /// Whether the file system is a tree: the root is a directory without a
    /// parent, every other entry sits in the list of its parent under a
    /// valid name that no other entry of that directory has, every node
    /// records the size of its content, and no entry lies below itself. The
    /// entries are no more than a machine can count. On FAT, which has no
    /// hard links, every entry has an inode number of its own.
    pub open spec fn well_formed(self) -> bool {
        &&& self.entries.len() <= usize::MAX
        &&& self.nodes.len() <= usize::MAX
        &&& self.is_dir(Self::root())
        &&& forall|loc: Location| self.valid(loc) ==> #[trigger] self.entry_ok(loc)
        &&& forall|n: int|
            0 <= n < self.nodes.len() ==> #[trigger] self.node_ok(n)
        &&& exists|rank: Seq<nat>| self.ranked(rank)
        &&& self.kind == FsKind::Fat ==> self.inodes_distinct()
    }
}

/// The size of a block of an ext4 file system, in bytes.
pub const EXT4_BLOCK_SIZE: u64 = 4096;

/// The inode number of the root directory of an ext4 file system.
pub const EXT4_ROOT_INODE: u64 = 2;

/// The mode of the root directory of an ext4 file system.
pub const EXT4_ROOT_MODE: u16 = 0o755;

/// The date that a FAT volume without a clock stamps on an entry: the first
/// day that FAT can record.
pub open spec fn dos_epoch() -> DosDateTime {
    DosDateTime { date: DosDate { year: 1980, month: 1, day: 1 }, time: DosTime::midnight() }
}

/// What the FAT codec tells of an entry that it has just made.
pub open spec fn fresh_fat_info(node_type: NodeType) -> FatFileInfo {
    FatFileInfo {
        size: if node_type == NodeType::Directory {
            None
        } else {
            Some(0u32)
        },
        accessed: dos_epoch().date,
        modified: dos_epoch(),
        created: dos_epoch(),
    }
}

/// The metadata of a node that has just been made, with the mode that
/// was asked for. On FAT the sizes and times are what the adapter makes of
/// a new entry of the codec.
pub open spec fn new_node_meta(
    kind: FsKind,
    node_type: NodeType,
    mode: NodePermission,
    inode: u64,
) -> Metadata {
    match kind {
        FsKind::Fat => Metadata {
            inode,
            mode,
            ..spec_file_metadata(fresh_fat_info(node_type), node_type)
        },
        FsKind::Ext4 => Metadata {
            device: 0,
            inode,
            nlink: 1,
            mode,
            node_type,
            uid: 0,
            gid: 0,
            size: 0,
            block_size: EXT4_BLOCK_SIZE,
            blocks: 0,
            atime: Duration::zero(),
            mtime: Duration::zero(),
            ctime: Duration::zero(),
        },
    }
}

impl FsView {
    /// Why `name` cannot be made in `dir` as a node of type `node_type`, or
    /// `None` where it can.
    pub open spec fn create_error(
        self,
        dir: Location,
        name: Seq<char>,
        node_type: NodeType,
    ) -> Option<VfsError> {
        if !self.valid(dir) {
            Some(VfsError::NotFound)
        } else if !self.is_dir(dir) {
            Some(VfsError::NotADirectory)
        } else if self.name_error(name) is Some {
            self.name_error(name)
        } else if !Self::valid_name(name) {
            Some(VfsError::InvalidInput)
        } else if self.kind == FsKind::Fat && node_type != NodeType::RegularFile && node_type
            != NodeType::Directory {
            Some(VfsError::InvalidInput)
        } else if self.find_child(dir, self.stored_name(name)) is Some {
            Some(VfsError::AlreadyExists)
        } else {
            None
        }
    }

    /// Whether `inode` can be the number of the node that is made next:
    /// on ext4 the numbers go on from 2, the number of the root; on FAT
    /// the allocator picks one that no entry has, and never 0.
    pub open spec fn numbers_next(self, inode: u64) -> bool {
        match self.kind {
            FsKind::Fat => inode >= 1 && self.inode_is_free(inode),
            FsKind::Ext4 => inode == self.nodes.len() + EXT4_ROOT_INODE,
        }
    }

    /// Whether the file system has no inode number for one more node: on
    /// ext4 where the numbers can be counted no further, on FAT never.
    pub open spec fn lacks_inodes(self) -> bool {
        match self.kind {
            FsKind::Fat => false,
            FsKind::Ext4 => self.nodes.len() + EXT4_ROOT_INODE > u64::MAX,
        }
    }

    /// The file system with one more entry, at the end of `dir`, that binds
    /// the stored name `stored` to `node`. The new entry takes the next free
    /// slot.
    pub open spec fn with_entry(self, dir: Location, stored: Seq<char>, node: usize) -> FsView {
        let d = self.entries[dir.index as int];
        FsView {
            entries: self.entries.update(
                dir.index as int,
                EntryView { children: d.children.push(self.entries.len() as usize), ..d },
            ).push(
                EntryView {
                    parent: Some(dir.index),
                    name: stored,
                    node,
                    children: Seq::empty(),
                    live: true,
                },
            ),
            ..self
        }
    }

    /// The file system with one more node, empty, in the next free slot.
    pub open spec fn with_node(self, meta: Metadata) -> FsView {
        FsView { nodes: self.nodes.push(NodeView { meta, content: Seq::empty() }), ..self }
    }

    /// The file system after `name` was made in `dir` as a new node with
    /// metadata `meta`.
    pub open spec fn created(self, dir: Location, name: Seq<char>, meta: Metadata) -> FsView {
        self.with_node(meta).with_entry(dir, self.stored_name(name), self.nodes.len() as usize)
    }

    /// Whether `made` and `after` are what making `name` in `dir`, as a
    /// node of type `node_type` with the mode `mode`, gives: the new entry
    /// in the next free slot with a new, empty node, or the error and no
    /// change.
    pub open spec fn creates(
        self,
        dir: Location,
        name: Seq<char>,
        node_type: NodeType,
        mode: NodePermission,
        after: FsView,
        made: VfsResult<Location>,
    ) -> bool {
        match made {
            Ok(loc) => {
                &&& self.create_error(dir, name, node_type) is None
                &&& loc.index == self.entries.len()
                &&& after == self.created(dir, name, after.nodes.last().meta)
                &&& after.nodes.last().meta == new_node_meta(
                    self.kind,
                    node_type,
                    mode,
                    after.nodes.last().meta.inode,
                )
                &&& self.numbers_next(after.nodes.last().meta.inode)
            },
            Err(e) => {
                &&& after == self
                &&& self.create_error(dir, name, node_type) == Some(e) || (self.create_error(
                    dir,
                    name,
                    node_type,
                ) is None && e == VfsError::StorageFull && self.lacks_inodes())
            },
        }
    }

    /// What `find_from` finds is an entry of the directory under that name,
    /// and where it finds none there is none from that position on.
    pub proof fn lemma_find_from(self, dir: Location, stored: Seq<char>, from: int)
        requires
            0 <= from,
        ensures
            match self.find_from(dir, stored, from) {
                Some(c) => exists|k: int|
                    from <= k < self.entries[dir.index as int].children.len()
                        && #[trigger] self.entries[dir.index as int].children[k] == c.index
                        && self.entries[c.index as int].name == stored,
                None => forall|k: int|
                    from <= k < self.entries[dir.index as int].children.len()
                        ==> self.entries[#[trigger] self.entries[dir.index as int].children[k] as int].name
                        != stored,
            },
        decreases self.entries[dir.index as int].children.len() - from,
    {
        let children = self.entries[dir.index as int].children;
        if from >= children.len() {
        } else if self.entries[children[from] as int].name == stored {
        } else {
            self.lemma_find_from(dir, stored, from + 1);
        }
    }

    /// In a directory whose names differ from each other, the entry at
    /// position `k` is the one that its name finds.
    pub proof fn lemma_find_child_at(self, dir: Location, k: int, from: int)
        requires
            self.valid(dir),
            self.entry_ok(dir),
            0 <= from <= k < self.entries[dir.index as int].children.len(),
        ensures
            self.find_from(
                dir,
                self.entries[self.entries[dir.index as int].children[k] as int].name,
                from,
            ) == Some(Location { index: self.entries[dir.index as int].children[k] }),
        decreases k - from,
    {
        let children = self.entries[dir.index as int].children;
        if from < k {
            assert(self.entries[children[from] as int].name != self.entries[children[k] as int].name);
            self.lemma_find_child_at(dir, k, from + 1);
        }
    }

    /// The stored form of a valid name is a valid name, and is its own
    /// stored form.
    pub proof fn lemma_stored_name_valid(self, name: Seq<char>)
        requires
            Self::valid_name(name),
        ensures
            Self::valid_name(self.stored_name(name)),
            self.stored_name(self.stored_name(name)) == self.stored_name(name),
    {
        if self.kind == FsKind::Fat {
            let lower = ascii_lower(name);
            lemma_ascii_lower_idempotent(name);
            assert forall|i: int| 0 <= i < name.len() implies (lower[i] == '/' ==> name[i] == '/')
                && (lower[i] == '\0' ==> name[i] == '\0') && (lower[i] == '.' ==> name[i] == '.') by {
                let c = name[i];
                if 'A' <= c && c <= 'Z' {
                    assert(((c as int) + 32) as char as int == (c as int) + 32);
                }
            }
            if lower.contains('/') {
                let i = choose|i: int| 0 <= i < lower.len() && lower[i] == '/';
                assert(name[i] == '/');
            }
            if lower.contains('\0') {
                let i = choose|i: int| 0 <= i < lower.len() && lower[i] == '\0';
                assert(name[i] == '\0');
            }
            if lower == dot() {
                assert(lower[0] == '.');
                assert(name =~= dot());
            }
            if lower == dotdot() {
                assert(lower[0] == '.' && lower[1] == '.');
                assert(name =~= dotdot());
            }
        }
    }

    /// What a directory finds depends on the entries alone.
    pub proof fn lemma_find_from_entries(self, other: FsView, dir: Location, stored: Seq<char>, from: int)
        requires
            self.entries == other.entries,
        ensures
            self.find_from(dir, stored, from) == other.find_from(dir, stored, from),
        decreases self.entries[dir.index as int].children.len() - from,
    {
        let children = self.entries[dir.index as int].children;
        if from < 0 || from >= children.len() {
        } else if self.entries[children[from] as int].name == stored {
        } else {
            self.lemma_find_from_entries(other, dir, stored, from + 1);
        }
    }

    /// Changing what nodes hold keeps the tree a tree, as long as no node
    /// changes its type or its inode number, no node goes away, and every
    /// node still records the size of its content.
    pub proof fn lemma_nodes_changed_well_formed(self, nodes: Seq<NodeView>)
        requires
            self.well_formed(),
            self.nodes.len() <= nodes.len() <= usize::MAX,
            forall|n: int|
                0 <= n < self.nodes.len() ==> (#[trigger] nodes[n]).meta.node_type
                    == self.nodes[n].meta.node_type && nodes[n].meta.inode
                    == self.nodes[n].meta.inode,
            forall|n: int| 0 <= n < nodes.len() ==> #[trigger] (FsView { nodes, ..self }).node_ok(n),
        ensures
            (FsView { nodes, ..self }).well_formed(),
            self.keeps_inodes(FsView { nodes, ..self }),
    {
        let after = FsView { nodes, ..self };
        assert(self.entry_ok(Self::root()));
        assert forall|l: Location| self.valid(l) implies (#[trigger] after.is_dir(l)
            == self.is_dir(l)) by {
            assert(self.entry_ok(l));
        }
        assert forall|l: Location| after.valid(l) implies #[trigger] after.entry_ok(l) by {
            assert(self.entry_ok(l));
            let ent = self.entries[l.index as int];
            if ent.parent is Some {
                assert(self.is_dir(Location { index: ent.parent->0 }));
            }
            assert forall|k: int| 0 <= k < ent.children.len() implies #[trigger] after.child_ok(
                l,
                k,
            ) by {
                assert(self.child_ok(l, k));
            }
        }
        assert(self.ranked(self.rank()));
        assert(after.ranked(self.rank()));
        assert forall|l: Location| after.valid(l) implies self.valid(l) && #[trigger] after.inode_of(
            l,
        ) == self.inode_of(l) by {
            assert(self.entry_ok(l));
        }
        self.lemma_inodes_kept(after);
    }

    /// Adding an entry under a fresh, valid stored name to a directory
    /// keeps the tree a tree.
    pub proof fn lemma_with_entry_well_formed(self, dir: Location, stored: Seq<char>, node: usize)
        requires
            self.well_formed(),
            self.is_dir(dir),
            Self::valid_name(stored),
            self.stored_name(stored) == stored,
            !name_too_long(stored),
            self.find_child(dir, stored) is None,
            node < self.nodes.len(),
            self.entries.len() < usize::MAX,
            self.kind == FsKind::Fat ==> self.inode_is_free(self.nodes[node as int].meta.inode),
        ensures
            self.with_entry(dir, stored, node).well_formed(),
    {
        let after = self.with_entry(dir, stored, node);
        let new = Location { index: self.entries.len() as usize };
        self.lemma_find_from(dir, stored, 0);
        assert(self.entry_ok(dir));
        assert(self.entry_ok(Self::root()));
        assert(forall|l: Location| self.valid(l) ==> after.valid(l));
        assert forall|l: Location| #[trigger] self.is_dir(l) implies after.is_dir(l) by {
            assert(self.entry_ok(l));
        }
        assert forall|loc: Location| after.valid(loc) implies #[trigger] after.entry_ok(loc) by {
            let ent = after.entries[loc.index as int];
            if loc == new {
                let last = self.entries[dir.index as int].children.len() as int;
                assert(after.entries[dir.index as int].children[last] == new.index);
                assert(after.entries[dir.index as int].children.contains(new.index));
                assert(ent.node < after.nodes.len());
                assert(after.is_dir(dir));
                assert(ent.children.len() == 0);
                assert(after.stored_name(ent.name) == ent.name);
            } else {
                assert(self.valid(loc));
                assert(self.entry_ok(loc));
                let before = self.entries[loc.index as int];
                assert(ent.parent == before.parent);
                assert(ent.name == before.name);
                assert(ent.node == before.node);
                if before.parent is Some {
                    let p = before.parent->0;
                    let k = choose|k: int|
                        0 <= k < self.entries[p as int].children.len()
                            && self.entries[p as int].children[k] == loc.index;
                    assert(after.entries[p as int].children[k] == loc.index);
                    assert(after.entries[p as int].children.contains(loc.index));
                    assert(after.is_dir(Location { index: p }));
                }
                if !after.is_dir(loc) {
                    assert(!self.is_dir(loc)) by {
                        assert(after.node_of(loc) == self.node_of(loc));
                    }
                    assert(loc != dir);
                    assert(ent.children.len() == 0);
                }
                assert forall|k: int| 0 <= k < ent.children.len() implies #[trigger] after.child_ok(
                    loc,
                    k,
                ) by {
                    if k < before.children.len() {
                        assert(self.child_ok(loc, k));
                    }
                }
                assert forall|j: int, k: int| 0 <= j < k < ent.children.len() implies {
                    let first = #[trigger] ent.children[j];
                    let second = #[trigger] ent.children[k];
                    after.entries[first as int].name != after.entries[second as int].name
                } by {
                    if k < before.children.len() {
                        assert(self.child_ok(loc, k));
                        assert(self.child_ok(loc, j));
                    } else {
                        assert(self.child_ok(loc, j));
                        assert(after.entries[ent.children[k] as int].name == stored);
                    }
                }
            }
        }
        assert forall|n: int| 0 <= n < after.nodes.len() implies #[trigger] after.node_ok(n) by {
            assert(self.node_ok(n));
        }
        let rank = self.rank();
        let new_rank = rank.push(rank[dir.index as int] + 1);
        assert(self.ranked(rank));
        assert(after.ranked(new_rank)) by {
            assert forall|e: int| 0 <= e < after.entries.len() && after.entries[e].live implies (
            #[trigger] after.entries[e].parent matches Some(p) ==> p < new_rank.len()
                && new_rank[p as int] < new_rank[e]) by {
                if e < self.entries.len() {
                    assert(self.entries[e].parent == after.entries[e].parent);
                    assert(self.entries[e].live);
                }
            }
        }
        if self.kind == FsKind::Fat {
            assert forall|l: Location| after.valid(l) && l != new implies self.valid(l)
                && #[trigger] after.inode_of(l) == self.inode_of(l) by {
                assert(self.entry_ok(l));
            }
            assert(after.inode_of(new) == self.nodes[node as int].meta.inode);
            assert(after.inodes_distinct());
        }
    }

    /// Making an entry that `create_error` allows keeps the tree a tree.
    pub proof fn lemma_created_well_formed(self, dir: Location, name: Seq<char>, meta: Metadata)
        requires
            self.well_formed(),
            self.create_error(dir, name, meta.node_type) is None,
            meta.node_type != NodeType::Directory ==> meta.size == 0,
            meta.block_size > 0,
            meta.times_ok(),
            self.kind == FsKind::Fat ==> self.inode_is_free(meta.inode),
            self.entries.len() < usize::MAX,
            self.nodes.len() < usize::MAX,
        ensures
            self.created(dir, name, meta).well_formed(),
    {
        let stored = self.stored_name(name);
        let mid = self.with_node(meta);
        self.lemma_stored_name_valid(name);
        assert forall|n: int| 0 <= n < mid.nodes.len() implies #[trigger] mid.node_ok(n) by {
            if n < self.nodes.len() {
                assert(self.node_ok(n));
            }
        }
        self.lemma_nodes_changed_well_formed(mid.nodes);
        assert(mid == FsView { nodes: mid.nodes, ..self });
        self.lemma_find_from_entries(mid, dir, stored, 0);
        assert(self.entry_ok(dir));
        if self.kind == FsKind::Fat {
            assert forall|l: Location| mid.valid(l) implies #[trigger] mid.inode_of(l)
                != meta.inode by {
                assert(self.inode_of(l) != meta.inode);
            }
        }
        mid.lemma_with_entry_well_formed(dir, stored, self.nodes.len() as usize);
    }
}

impl FsView {
    /// The position of `loc` in the list of its parent.
    pub open spec fn position(self, loc: Location) -> int {
        let p = self.entries[loc.index as int].parent->0;
        self.entries[p as int].children.index_of(loc.index)
    }

    /// The node `n` with one name less.
    pub open spec fn node_unlinked(self, n: int) -> NodeView {
        let node = self.nodes[n];
        NodeView {
            meta: Metadata {
                nlink: if node.meta.nlink > 0 {
                    (node.meta.nlink - 1) as u64
                } else {
                    0
                },
                ..node.meta
            },
            ..node
        }
    }

    /// The file system without the entry `loc`: the entry leaves the list
    /// of its parent and exists no more, and its node has one name less.
    pub open spec fn without_entry(self, loc: Location) -> FsView {
        let ent = self.entries[loc.index as int];
        let p = ent.parent->0 as int;
        let d = self.entries[p];
        FsView {
            entries: self.entries.update(
                p,
                EntryView { children: d.children.remove(self.position(loc)), ..d },
            ).update(loc.index as int, EntryView { live: false, ..ent }),
            nodes: self.nodes.update(ent.node as int, self.node_unlinked(ent.node as int)),
            ..self
        }
    }

    /// Why `name` cannot be a name in an operation: `.` and `..` are never
    /// entries, and a name has at most 255 bytes in stored form.
    pub open spec fn name_error(self, name: Seq<char>) -> Option<VfsError> {
        if name == dot() || name == dotdot() {
            Some(VfsError::InvalidInput)
        } else if name_too_long(self.stored_name(name)) {
            Some(VfsError::NameTooLong)
        } else {
            None
        }
    }

    /// Why the entry `name` of `dir` cannot be removed, or `None` where it
    /// can. `is_dir` says whether the caller means to remove a directory.
    pub open spec fn unlink_error(self, dir: Location, name: Seq<char>, is_dir: bool) -> Option<
        VfsError,
    > {
        if !self.valid(dir) {
            Some(VfsError::NotFound)
        } else if !self.is_dir(dir) {
            Some(VfsError::NotADirectory)
        } else if self.name_error(name) is Some {
            self.name_error(name)
        } else {
            match self.find_child(dir, self.stored_name(name)) {
                None => Some(VfsError::NotFound),
                Some(c) => if self.is_dir(c) && !is_dir {
                    Some(VfsError::IsADirectory)
                } else if !self.is_dir(c) && is_dir {
                    Some(VfsError::NotADirectory)
                } else if self.entries[c.index as int].children.len() > 0 {
                    Some(VfsError::DirectoryNotEmpty)
                } else {
                    None
                },
            }
        }
    }

    /// The file system after the entry `name` of `dir` was removed.
    pub open spec fn unlinked(self, dir: Location, name: Seq<char>) -> FsView {
        self.without_entry(self.find_child(dir, self.stored_name(name))->0)
    }

    /// No entry occurs twice in the list of a directory.
    pub proof fn lemma_children_distinct(self, dir: Location, j: int, k: int)
        requires
            self.valid(dir),
            self.entry_ok(dir),
            0 <= j < self.entries[dir.index as int].children.len(),
            0 <= k < self.entries[dir.index as int].children.len(),
            self.entries[dir.index as int].children[j] == self.entries[dir.index
                as int].children[k],
        ensures
            j == k,
    {
        let children = self.entries[dir.index as int].children;
        if j < k {
            assert(self.entries[children[j] as int].name != self.entries[children[k] as int].name);
        }
        if k < j {
            assert(self.entries[children[k] as int].name != self.entries[children[j] as int].name);
        }
    }

    /// A directory has no more entries than the file system has.
    pub proof fn lemma_children_bounded(self, dir: Location)
        requires
            self.well_formed(),
            self.valid(dir),
        ensures
            self.entries[dir.index as int].children.len() <= self.entries.len(),
    {
        let children = self.entries[dir.index as int].children;
        let ids = Seq::new(children.len(), |k: int| children[k] as int);
        let all = set_int_range(0, self.entries.len() as int);
        assert(self.entry_ok(dir));
        assert forall|i: int, j: int|
            0 <= i < ids.len() && 0 <= j < ids.len() && i != j implies ids[i] != ids[j] by {
            if ids[i] == ids[j] {
                self.lemma_children_distinct(dir, i, j);
            }
        }
        ids.unique_seq_to_set();
        lemma_int_range(0, self.entries.len() as int);
        assert forall|x: int| ids.to_set().contains(x) implies all.contains(x) by {
            let k = choose|k: int| 0 <= k < ids.len() && ids[k] == x;
            assert(self.child_ok(dir, k));
        }
        lemma_len_subset(ids.to_set(), all);
    }

    /// An entry with a parent stands in the list of that parent, at its
    /// position and nowhere else.
    pub proof fn lemma_position(self, loc: Location)
        requires
            self.well_formed(),
            self.valid(loc),
            self.entries[loc.index as int].parent is Some,
        ensures
            0 <= self.position(loc) < self.entries[self.entries[loc.index
                as int].parent->0 as int].children.len(),
            self.entries[self.entries[loc.index as int].parent->0 as int].children[self.position(
                loc,
            )] == loc.index,
            forall|k: int|
                0 <= k < self.entries[self.entries[loc.index
                    as int].parent->0 as int].children.len() && #[trigger] self.entries[self.entries[loc.index
                    as int].parent->0 as int].children[k] == loc.index ==> k == self.position(loc),
    {
        assert(self.entry_ok(loc));
        let p = Location { index: self.entries[loc.index as int].parent->0 };
        let children = self.entries[p.index as int].children;
        assert(children.contains(loc.index));
        let pos = self.position(loc);
        assert(self.entry_ok(p));
        assert forall|k: int| 0 <= k < children.len() && #[trigger] children[k]
            == loc.index implies k == pos by {
            self.lemma_children_distinct(p, k, pos);
        }
    }

    /// Removing an entry that has a parent and no entries of its own keeps
    /// the tree a tree.
    pub proof fn lemma_without_entry_well_formed(self, loc: Location)
        requires
            self.well_formed(),
            self.valid(loc),
            self.entries[loc.index as int].parent is Some,
            self.entries[loc.index as int].children.len() == 0,
        ensures
            self.without_entry(loc).well_formed(),
            self.keeps_inodes(self.without_entry(loc)),
    {
        let after = self.without_entry(loc);
        let ent = self.entries[loc.index as int];
        let dir = Location { index: ent.parent->0 };
        let pos = self.position(loc);
        let old_children = self.entries[dir.index as int].children;
        let new_children = after.entries[dir.index as int].children;
        self.lemma_position(loc);
        assert(self.entry_ok(loc));
        assert(self.entry_ok(dir));
        assert(self.entry_ok(Self::root()));
        assert(dir != loc);
        assert(new_children == old_children.remove(pos));
        assert forall|k: int| 0 <= k < new_children.len() implies new_children[k] == (if k
            < pos {
            old_children[k]
        } else {
            old_children[k + 1]
        }) by {}
        assert forall|l: Location| #[trigger] self.is_dir(l) && l != loc implies after.is_dir(l) by {
            assert(self.entry_ok(l));
        }
        assert forall|l: Location| #[trigger] after.is_dir(l) implies self.is_dir(l) by {
            assert(self.valid(l));
            assert(self.entry_ok(l));
        }
        assert forall|l: Location| after.valid(l) implies #[trigger] after.entry_ok(l) by {
            assert(self.valid(l));
            assert(l != loc);
            assert(self.entry_ok(l));
            let before = self.entries[l.index as int];
            let now = after.entries[l.index as int];
            assert(now.parent == before.parent);
            assert(now.name == before.name);
            assert(now.node == before.node);
            if before.parent is Some {
                let p = Location { index: before.parent->0 };
                self.lemma_position(l);
                let k = self.position(l);
                if p == dir {
                    assert(k != pos);
                    if k < pos {
                        assert(new_children[k] == l.index);
                    } else {
                        assert(new_children[k - 1] == l.index);
                    }
                } else {
                    assert(after.entries[p.index as int].children[k] == l.index);
                }
                assert(after.entries[p.index as int].children.contains(l.index));
                assert(self.is_dir(p));
                assert(p != loc) by {
                    if p == loc {
                        assert(self.entries[loc.index as int].children.len() > 0);
                    }
                }
                assert(after.is_dir(p));
            }
            assert forall|k: int| 0 <= k < now.children.len() implies #[trigger] after.child_ok(
                l,
                k,
            ) by {
                if l == dir {
                    let k0 = if k < pos {
                        k
                    } else {
                        k + 1
                    };
                    assert(self.child_ok(l, k0));
                    assert(old_children[k0] != loc.index) by {
                        if old_children[k0] == loc.index {
                            self.lemma_children_distinct(dir, k0, pos);
                        }
                    }
                } else {
                    assert(self.child_ok(l, k));
                }
            }
            assert forall|j: int, k: int| 0 <= j < k < now.children.len() implies {
                let first = #[trigger] now.children[j];
                let second = #[trigger] now.children[k];
                after.entries[first as int].name != after.entries[second as int].name
            } by {
                if l == dir {
                    let j0 = if j < pos {
                        j
                    } else {
                        j + 1
                    };
                    let k0 = if k < pos {
                        k
                    } else {
                        k + 1
                    };
                    assert(self.child_ok(l, j0));
                    assert(self.child_ok(l, k0));
                    assert(self.entries[old_children[j0] as int].name
                        != self.entries[old_children[k0] as int].name);
                } else {
                    assert(self.child_ok(l, j));
                    assert(self.child_ok(l, k));
                }
            }
        }
        assert forall|n: int| 0 <= n < after.nodes.len() implies #[trigger] after.node_ok(n) by {
            assert(self.node_ok(n));
        }
        let rank = self.rank();
        assert(self.ranked(rank));
        assert(after.ranked(rank)) by {
            assert forall|e: int| 0 <= e < after.entries.len() && after.entries[e].live implies (
            #[trigger] after.entries[e].parent matches Some(p) ==> p < rank.len() && rank[p as int]
                < rank[e]) by {
                assert(self.entries[e].parent == after.entries[e].parent);
                assert(self.entries[e].live);
            }
        }
        assert forall|l: Location| after.valid(l) implies self.valid(l) && #[trigger] after.inode_of(
            l,
        ) == self.inode_of(l) by {
            assert(self.entry_ok(l));
        }
        self.lemma_inodes_kept(after);
    }
}

impl FsView {
    /// Why `name` cannot be made in `dir` as another name of the node of
    /// `target`, or `None` where it can. FAT has no hard links, and a
    /// directory has one name only.
    pub open spec fn link_error(self, dir: Location, name: Seq<char>, target: Location) -> Option<
        VfsError,
    > {
        if self.kind == FsKind::Fat {
            Some(VfsError::PermissionDenied)
        } else if !self.valid(dir) {
            Some(VfsError::NotFound)
        } else if !self.is_dir(dir) {
            Some(VfsError::NotADirectory)
        } else if self.name_error(name) is Some {
            self.name_error(name)
        } else if !Self::valid_name(name) {
            Some(VfsError::InvalidInput)
        } else if !self.valid(target) {
            Some(VfsError::NotFound)
        } else if self.is_dir(target) {
            Some(VfsError::PermissionDenied)
        } else if self.find_child(dir, self.stored_name(name)) is Some {
            Some(VfsError::AlreadyExists)
        } else if self.node_of(target).meta.nlink == u64::MAX {
            Some(VfsError::StorageFull)
        } else {
            None
        }
    }

    /// The node `n` with one name more.
    pub open spec fn node_linked(self, n: int) -> NodeView {
        let node = self.nodes[n];
        NodeView { meta: Metadata { nlink: (node.meta.nlink + 1) as u64, ..node.meta }, ..node }
    }

    /// The file system after `name` was made in `dir` as another name of
    /// the node of `target`.
    pub open spec fn linked(self, dir: Location, name: Seq<char>, target: Location) -> FsView {
        let n = self.entries[target.index as int].node;
        (FsView { nodes: self.nodes.update(n as int, self.node_linked(n as int)), ..self }).with_entry(
            dir,
            self.stored_name(name),
            n,
        )
    }

    /// Making a link that `link_error` allows keeps the tree a tree.
    pub proof fn lemma_linked_well_formed(self, dir: Location, name: Seq<char>, target: Location)
        requires
            self.well_formed(),
            self.link_error(dir, name, target) is None,
            self.entries.len() < usize::MAX,
        ensures
            self.linked(dir, name, target).well_formed(),
    {
        let stored = self.stored_name(name);
        let n = self.entries[target.index as int].node;
        assert(self.entry_ok(target));
        let nodes = self.nodes.update(n as int, self.node_linked(n as int));
        let mid = FsView { nodes, ..self };
        self.lemma_stored_name_valid(name);
        assert forall|m: int| 0 <= m < mid.nodes.len() implies #[trigger] mid.node_ok(m) by {
            assert(self.node_ok(m));
        }
        self.lemma_nodes_changed_well_formed(nodes);
        self.lemma_find_from_entries(mid, dir, stored, 0);
        assert(self.entry_ok(dir));
        mid.lemma_with_entry_well_formed(dir, stored, n);
    }

    /// Whether `above` is `below` or a directory on the way from `below` up
    /// to the root.
    pub open spec fn is_ancestor(self, above: Location, below: Location) -> bool
        decreases self.rank()[below.index as int],
    {
        above == below || (match self.entries[below.index as int].parent {
            Some(p) => p < self.entries.len() && self.rank()[p as int] < self.rank()[below.index
                as int] && self.is_ancestor(above, Location { index: p }),
            None => false,
        })
    }

    /// The names on the way from `loc` up to the root, the name of `loc`
    /// first. The root has no name.
    pub open spec fn names_up(self, loc: Location) -> Seq<Seq<char>>
        decreases self.rank()[loc.index as int],
    {
        match self.entries[loc.index as int].parent {
            Some(p) => if p < self.entries.len() && self.rank()[p as int] < self.rank()[loc.index
                as int] {
                seq![self.entries[loc.index as int].name] + self.names_up(Location { index: p })
            } else {
                Seq::empty()
            },
            None => Seq::empty(),
        }
    }

    /// The names on the way from the root down to `loc`.
    pub open spec fn absolute_names(self, loc: Location) -> Seq<Seq<char>> {
        self.names_up(loc).reverse()
    }

    /// The entry above a valid entry exists, is a directory, and has a
    /// smaller rank.
    pub proof fn lemma_parent(self, loc: Location)
        requires
            self.well_formed(),
            self.valid(loc),
            self.entries[loc.index as int].parent is Some,
        ensures
            self.is_dir(self.parent(loc)->0),
            self.rank()[self.parent(loc)->0.index as int] < self.rank()[loc.index as int],
            self.rank().len() == self.entries.len(),
    {
        assert(self.entry_ok(loc));
        assert(self.ranked(self.rank()));
    }
}

/// The text of a path that goes through `names`: each name with a `/`
/// before it.
pub open spec fn join_names(names: Seq<Seq<char>>) -> Seq<char>
    decreases names.len(),
{
    if names.len() == 0 {
        Seq::empty()
    } else {
        join_names(names.drop_last()) + seq!['/'] + names.last()
    }
}

/// The text of the absolute path that goes from the root through `names`;
/// the path of the root itself is `/`.
pub open spec fn path_text(names: Seq<Seq<char>>) -> Seq<char> {
    if names.len() == 0 {
        seq!['/']
    } else {
        join_names(names)
    }
}

impl FsView {
    /// Why the entry `src_name` of `src_dir` cannot become the entry
    /// `dst_name` of `dst_dir`, or `None` where it can.
    ///
    /// The entry to move is looked up first: where it is missing the answer
    /// is `NotFound`, whatever the target is. A move from a directory into
    /// a directory below it is then refused, which keeps every directory
    /// out of its own subtree. An entry in the way is replaced, whatever
    /// the two are, unless it is a directory that holds entries.
    pub open spec fn rename_error(
        self,
        src_dir: Location,
        src_name: Seq<char>,
        dst_dir: Location,
        dst_name: Seq<char>,
    ) -> Option<VfsError> {
        if !self.valid(src_dir) || !self.valid(dst_dir) {
            Some(VfsError::NotFound)
        } else if !self.is_dir(src_dir) {
            Some(VfsError::NotADirectory)
        } else if self.name_error(src_name) is Some {
            self.name_error(src_name)
        } else if self.find_child(src_dir, self.stored_name(src_name)) is None {
            Some(VfsError::NotFound)
        } else if src_dir != dst_dir && self.is_ancestor(src_dir, dst_dir) {
            Some(VfsError::InvalidInput)
        } else if !self.is_dir(dst_dir) {
            Some(VfsError::NotADirectory)
        } else if self.name_error(dst_name) is Some {
            self.name_error(dst_name)
        } else if !Self::valid_name(dst_name) {
            Some(VfsError::InvalidInput)
        } else {
            match self.find_child(dst_dir, self.stored_name(dst_name)) {
                None => None,
                Some(dst) => if self.is_dir(dst) && self.entries[dst.index as int].children.len()
                    > 0 {
                    Some(VfsError::DirectoryNotEmpty)
                } else {
                    None
                },
            }
        }
    }

    /// The file system after the entry `src` left the list of its parent
    /// and went to the end of the list of `dst_dir`, under the stored name
    /// `stored`.
    pub open spec fn moved(self, src: Location, dst_dir: Location, stored: Seq<char>) -> FsView {
        let ent = self.entries[src.index as int];
        let p = ent.parent->0 as int;
        let detached = self.entries.update(
            p,
            EntryView {
                children: self.entries[p].children.remove(self.position(src)),
                ..self.entries[p]
            },
        );
        let d = detached[dst_dir.index as int];
        let attached = detached.update(
            dst_dir.index as int,
            EntryView { children: d.children.push(src.index), ..d },
        );
        FsView {
            entries: attached.update(
                src.index as int,
                EntryView { parent: Some(dst_dir.index), name: stored, ..ent },
            ),
            ..self
        }
    }

    /// The file system after a rename that `rename_error` allows. Another
    /// entry under the new name is removed first, be it a name of the same
    /// node or of another. Where the new name names the entry itself,
    /// nothing changes.
    pub open spec fn renamed(
        self,
        src_dir: Location,
        src_name: Seq<char>,
        dst_dir: Location,
        dst_name: Seq<char>,
    ) -> FsView {
        let src = self.find_child(src_dir, self.stored_name(src_name))->0;
        let stored = self.stored_name(dst_name);
        match self.find_child(dst_dir, stored) {
            Some(dst) => if dst == src {
                self
            } else {
                self.without_entry(dst).moved(src, dst_dir, stored)
            },
            None => self.moved(src, dst_dir, stored),
        }
    }

    /// An ancestor has no greater rank than what lies below it.
    pub proof fn lemma_ancestor_rank(self, above: Location, below: Location)
        requires
            self.well_formed(),
            self.valid(below),
            self.is_ancestor(above, below),
        ensures
            self.valid(above),
            self.rank()[above.index as int] <= self.rank()[below.index as int],
        decreases self.rank()[below.index as int],
    {
        if above != below {
            self.lemma_parent(below);
            self.lemma_ancestor_rank(above, self.parent(below)->0);
        }
    }

    /// A directory that lies strictly above an entry has entries.
    pub proof fn lemma_ancestor_has_children(self, above: Location, below: Location)
        requires
            self.well_formed(),
            self.valid(below),
            self.is_ancestor(above, below),
            above != below,
        ensures
            self.entries[above.index as int].children.len() > 0,
        decreases self.rank()[below.index as int],
    {
        self.lemma_parent(below);
        let q = self.parent(below)->0;
        if q == above {
            assert(self.entry_ok(below));
            assert(self.entries[q.index as int].children.contains(below.index));
        } else {
            self.lemma_ancestor_has_children(above, q);
        }
    }

    /// What lies above an entry lies above everything below that entry,
    /// and strictly so for the parent of an ancestor.
    pub proof fn lemma_parent_of_ancestor(self, src: Location, below: Location)
        requires
            self.well_formed(),
            self.valid(src),
            self.valid(below),
            self.entries[src.index as int].parent is Some,
            self.is_ancestor(src, below),
        ensures
            self.is_ancestor(self.parent(src)->0, below),
            self.parent(src)->0 != below,
        decreases self.rank()[below.index as int],
    {
        let p = self.parent(src)->0;
        self.lemma_parent(src);
        self.lemma_ancestor_rank(src, below);
        if below == src {
            assert(self.is_ancestor(p, p));
        } else {
            self.lemma_parent(below);
            self.lemma_parent_of_ancestor(src, self.parent(below)->0);
        }
    }

    /// Two trees agree on what lies above an entry where they agree on the
    /// way from that entry up.
    pub proof fn lemma_is_ancestor_agrees(self, other: FsView, above: Location, below: Location)
        requires
            self.well_formed(),
            other.well_formed(),
            self.valid(below),
            forall|e: Location| #[trigger]
                self.is_ancestor(e, below) ==> other.valid(e) && other.entries[e.index as int].parent
                    == self.entries[e.index as int].parent,
        ensures
            self.is_ancestor(above, below) == other.is_ancestor(above, below),
        decreases self.rank()[below.index as int],
    {
        assert(self.is_ancestor(below, below));
        if above != below && self.entries[below.index as int].parent is Some {
            let q = self.parent(below)->0;
            self.lemma_parent(below);
            other.lemma_parent(below);
            assert forall|e: Location| #[trigger] self.is_ancestor(e, q) implies other.valid(e)
                && other.entries[e.index as int].parent == self.entries[e.index as int].parent by {
                assert(self.is_ancestor(e, below));
            }
            self.lemma_is_ancestor_agrees(other, above, q);
        }
    }

    /// Whether the entry `src` can go to the directory `dst_dir` under the
    /// stored name `stored`: the directory does not lie below the entry,
    /// and the name is valid and free there.
    pub open spec fn can_move(self, src: Location, dst_dir: Location, stored: Seq<char>) -> bool {
        &&& self.valid(src)
        &&& self.entries[src.index as int].parent is Some
        &&& self.is_dir(dst_dir)
        &&& !self.is_ancestor(src, dst_dir)
        &&& Self::valid_name(stored)
        &&& self.stored_name(stored) == stored
        &&& !name_too_long(stored)
        &&& forall|k: int|
            0 <= k < self.entries[dst_dir.index as int].children.len()
                && #[trigger] self.entries[dst_dir.index as int].children[k] != src.index
                ==> self.entries[self.entries[dst_dir.index as int].children[k] as int].name
                != stored
    }

    /// The file system in which a rename moves its entry: the one before
    /// the rename, less the entry that is in the way.
    pub open spec fn renamed_from(
        self,
        src_dir: Location,
        src_name: Seq<char>,
        dst_dir: Location,
        dst_name: Seq<char>,
    ) -> FsView {
        match self.find_child(dst_dir, self.stored_name(dst_name)) {
            Some(dst) => self.without_entry(dst),
            None => self,
        }
    }

    /// Moving an entry to a directory that does not lie below it, under a
    /// valid stored name that no other entry of that directory has, keeps
    /// the tree a tree.
    pub proof fn lemma_moved_well_formed(self, src: Location, dst_dir: Location, stored: Seq<char>)
        requires
            self.well_formed(),
            self.can_move(src, dst_dir, stored),
        ensures
            self.moved(src, dst_dir, stored).well_formed(),
            self.keeps_inodes(self.moved(src, dst_dir, stored)),
    {
        let after = self.moved(src, dst_dir, stored);
        let p = self.parent(src)->0;
        let pos = self.position(src);
        self.lemma_position(src);
        self.lemma_parent(src);
        assert(self.entry_ok(src));
        assert(self.entry_ok(p));
        assert(self.entry_ok(dst_dir));
        assert(self.entry_ok(Self::root()));
        assert(src != dst_dir);
        assert(src != p);
        assert forall|l: Location| after.valid(l) == self.valid(l) by {}
        assert forall|l: Location| #[trigger] after.is_dir(l) == self.is_dir(l) by {
            if self.valid(l) {
                assert(self.entry_ok(l));
            }
        }
        // Where each position of a list after the move comes from.
        assert forall|l: Location, k: int|
            self.valid(l) && 0 <= k < after.entries[l.index as int].children.len() implies {
            let now = #[trigger] after.entries[l.index as int].children[k];
            let was = self.entries[l.index as int].children;
            if l == dst_dir && k == after.entries[l.index as int].children.len() - 1 {
                now == src.index
            } else if l == p {
                now != src.index && if k < pos {
                    0 <= k < was.len() && now == was[k]
                } else {
                    0 <= k + 1 < was.len() && now == was[k + 1]
                }
            } else {
                0 <= k < was.len() && now == was[k] && now != src.index
            }
        } by {
            let was = self.entries[l.index as int].children;
            assert(self.entry_ok(l));
            if l == dst_dir && k == after.entries[l.index as int].children.len() - 1 {
            } else if l == p {
                let k0 = if k < pos {
                    k
                } else {
                    k + 1
                };
                if was[k0] == src.index {
                    self.lemma_children_distinct(p, k0, pos);
                }
            } else {
                assert(self.child_ok(l, k));
            }
        }
        assert forall|l: Location| after.valid(l) implies #[trigger] after.entry_ok(l) by {
            assert(self.valid(l));
            assert(self.entry_ok(l));
            let before = self.entries[l.index as int];
            let now = after.entries[l.index as int];
            assert(now.node == before.node);
            if l == src {
                let last = after.entries[dst_dir.index as int].children.len() - 1;
                assert(after.entries[dst_dir.index as int].children[last] == src.index);
                assert(after.entries[dst_dir.index as int].children.contains(src.index));
                assert(now.children == before.children);
            } else {
                assert(now.parent == before.parent);
                assert(now.name == before.name);
                if before.parent is Some {
                    let q = Location { index: before.parent->0 };
                    self.lemma_position(l);
                    let k = self.position(l);
                    assert(self.is_dir(q));
                    if q == p {
                        assert(k != pos);
                        let k1 = if k < pos {
                            k
                        } else {
                            k - 1
                        };
                        assert(after.entries[q.index as int].children[k1] == l.index);
                    } else {
                        assert(after.entries[q.index as int].children[k] == l.index);
                    }
                    assert(after.entries[q.index as int].children.contains(l.index));
                }
            }
            if !after.is_dir(l) {
                assert(l != p && l != dst_dir);
                assert(now.children == before.children);
            }
            assert forall|k: int| 0 <= k < now.children.len() implies #[trigger] after.child_ok(
                l,
                k,
            ) by {
                let c = after.entries[l.index as int].children[k];
                if c != src.index {
                    let k0 = if l == p && k >= pos {
                        k + 1
                    } else {
                        k
                    };
                    assert(self.child_ok(l, k0));
                }
            }
            assert forall|j: int, k: int| 0 <= j < k < now.children.len() implies {
                let first = #[trigger] now.children[j];
                let second = #[trigger] now.children[k];
                after.entries[first as int].name != after.entries[second as int].name
            } by {
                let cj = after.entries[l.index as int].children[j];
                let ck = after.entries[l.index as int].children[k];
                assert(cj != src.index);
                let j0 = if l == p && j >= pos {
                    j + 1
                } else {
                    j
                };
                assert(self.child_ok(l, j0));
                if ck == src.index {
                    assert(l == dst_dir);
                    assert(self.entries[l.index as int].children[j0] != src.index);
                } else {
                    let k0 = if l == p && k >= pos {
                        k + 1
                    } else {
                        k
                    };
                    assert(self.child_ok(l, k0));
                    assert(self.entries[before.children[j0] as int].name
                        != self.entries[before.children[k0] as int].name);
                }
            }
        }
        assert forall|n: int| 0 <= n < after.nodes.len() implies #[trigger] after.node_ok(n) by {
            assert(self.node_ok(n));
        }
        let rank = self.rank();
        assert(self.ranked(rank));
        let shift: nat = rank[dst_dir.index as int] + 1;
        let new_rank = Seq::new(
            rank.len(),
            |e: int|
                if self.is_ancestor(src, Location { index: e as usize }) {
                    rank[e] + shift
                } else {
                    rank[e]
                },
        );
        assert(after.ranked(new_rank)) by {
            assert forall|e: int| 0 <= e < after.entries.len() && after.entries[e].live implies (
            #[trigger] after.entries[e].parent matches Some(q) ==> q < new_rank.len()
                && new_rank[q as int] < new_rank[e]) by {
                let l = Location { index: e as usize };
                assert(self.valid(l));
                assert(self.entry_ok(l));
                if after.entries[e].parent is Some {
                    let q = after.entries[e].parent->0;
                    if l == src {
                        assert(q == dst_dir.index);
                        assert(self.is_ancestor(src, src));
                    } else {
                        assert(self.entries[e].parent == Some(q));
                        self.lemma_parent(l);
                        assert(self.is_ancestor(src, l) == self.is_ancestor(
                            src,
                            Location { index: q },
                        ));
                    }
                }
            }
        }
        assert forall|l: Location| after.valid(l) implies self.valid(l) && #[trigger] after.inode_of(
            l,
        ) == self.inode_of(l) by {
            assert(self.entry_ok(l));
        }
        self.lemma_inodes_kept(after);
    }

    /// After a move the new directory finds the entry under its new name,
    /// and the old directory finds nothing under the old one, unless both
    /// are the same.
    pub proof fn lemma_moved_then_find(self, src: Location, dst_dir: Location, stored: Seq<char>)
        requires
            self.well_formed(),
            self.can_move(src, dst_dir, stored),
        ensures
            self.moved(src, dst_dir, stored).find_child(dst_dir, stored) == Some(src),
            self.parent(src)->0 != dst_dir || self.entries[src.index as int].name != stored
                ==> self.moved(src, dst_dir, stored).find_child(
                self.parent(src)->0,
                self.entries[src.index as int].name,
            ) is None,
            forall|l: Location| #[trigger]
                self.moved(src, dst_dir, stored).is_dir(l) == self.is_dir(l),
    {
        let after = self.moved(src, dst_dir, stored);
        let p = self.parent(src)->0;
        let old_name = self.entries[src.index as int].name;
        self.lemma_moved_well_formed(src, dst_dir, stored);
        self.lemma_position(src);
        self.lemma_parent(src);
        assert(self.entry_ok(src));
        assert(self.entry_ok(p));
        assert(self.entry_ok(dst_dir));
        assert(src != dst_dir);
        assert(src != p);
        assert(after.valid(dst_dir));
        assert(after.valid(p));
        assert(after.entry_ok(dst_dir));
        assert(after.entry_ok(p));
        assert forall|l: Location| #[trigger] after.is_dir(l) == self.is_dir(l) by {
            if self.valid(l) {
                assert(self.entry_ok(l));
            }
        }
        let last = after.entries[dst_dir.index as int].children.len() - 1;
        assert(after.entries[dst_dir.index as int].children[last] == src.index);
        after.lemma_find_child_at(dst_dir, last, 0);
        if p != dst_dir || old_name != stored {
            after.lemma_find_from(p, old_name, 0);
            if after.find_child(p, old_name) is Some {
                let found = after.find_child(p, old_name)->0;
                let now = after.entries[p.index as int].children;
                let j = choose|j: int|
                    0 <= j < now.len() && #[trigger] now[j] == found.index
                        && after.entries[found.index as int].name == old_name;
                assert(after.child_ok(p, j));
                if found != src {
                    assert(self.valid(found));
                    assert(self.entries[found.index as int] == after.entries[found.index as int]);
                    self.lemma_position(found);
                    self.lemma_find_child_at(p, self.position(found), 0);
                    self.lemma_find_child_at(p, self.position(src), 0);
                    assert(false);
                }
                assert(false);
            }
        }
    }

    /// A rename that `rename_error` allows keeps the tree a tree.
    pub proof fn lemma_renamed_well_formed(
        self,
        src_dir: Location,
        src_name: Seq<char>,
        dst_dir: Location,
        dst_name: Seq<char>,
    )
        requires
            self.well_formed(),
            self.rename_error(src_dir, src_name, dst_dir, dst_name) is None,
        ensures
            self.renamed(src_dir, src_name, dst_dir, dst_name).well_formed(),
            self.renamed_via(src_dir, src_name, dst_dir, dst_name),
            self.renames(src_dir, src_name, dst_dir, dst_name) ==> {
                let from = self.renamed_from(src_dir, src_name, dst_dir, dst_name);
                let src = self.find_child(src_dir, self.stored_name(src_name))->0;
                &&& from.well_formed()
                &&& from.can_move(src, dst_dir, self.stored_name(dst_name))
                &&& from.entries[src.index as int].parent == Some(src_dir.index)
                &&& from.entries[src.index as int].name == self.stored_name(src_name)
                &&& from.is_dir(src_dir)
                &&& self.renamed(src_dir, src_name, dst_dir, dst_name) == from.moved(
                    src,
                    dst_dir,
                    self.stored_name(dst_name),
                )
            },
    {
        let stored_src = self.stored_name(src_name);
        let stored = self.stored_name(dst_name);
        let src = self.find_child(src_dir, stored_src)->0;
        self.lemma_stored_name_valid(dst_name);
        self.lemma_find_from(src_dir, stored_src, 0);
        self.lemma_find_from(dst_dir, stored, 0);
        assert(self.entry_ok(src_dir));
        assert(self.entry_ok(dst_dir));
        let ks = choose|k: int|
            0 <= k < self.entries[src_dir.index as int].children.len()
                && #[trigger] self.entries[src_dir.index as int].children[k] == src.index
                && self.entries[src.index as int].name == stored_src;
        assert(self.child_ok(src_dir, ks));
        assert(self.entry_ok(src));
        if self.is_ancestor(src, dst_dir) {
            self.lemma_parent_of_ancestor(src, dst_dir);
        }
        match self.find_child(dst_dir, stored) {
            None => {
                assert(self.can_move(src, dst_dir, stored));
                self.lemma_moved_well_formed(src, dst_dir, stored);
            },
            Some(dst) => {
                let kd = choose|k: int|
                    0 <= k < self.entries[dst_dir.index as int].children.len()
                        && #[trigger] self.entries[dst_dir.index as int].children[k] == dst.index
                        && self.entries[dst.index as int].name == stored;
                assert(self.child_ok(dst_dir, kd));
                assert(self.entry_ok(dst));
                if dst != src {
                    let mid = self.without_entry(dst);
                    self.lemma_position(dst);
                    assert(self.position(dst) == kd);
                    self.lemma_without_entry_well_formed(dst);
                    assert(mid.valid(src));
                    assert(mid.entries[src.index as int].parent == Some(src_dir.index));
                    assert(mid.is_dir(dst_dir)) by {
                        assert(mid.node_of(dst_dir).meta.node_type == self.node_of(
                            dst_dir,
                        ).meta.node_type);
                    }
                    assert forall|e: Location| #[trigger]
                        self.is_ancestor(e, dst_dir) implies mid.valid(e) && mid.entries[e.index
                        as int].parent == self.entries[e.index as int].parent by {
                        self.lemma_ancestor_rank(e, dst_dir);
                        if e == dst {
                            self.lemma_parent(dst);
                            if e != dst_dir {
                                self.lemma_ancestor_has_children(e, dst_dir);
                            }
                        }
                    }
                    self.lemma_is_ancestor_agrees(mid, src, dst_dir);
                    let was = self.entries[dst_dir.index as int].children;
                    let now = mid.entries[dst_dir.index as int].children;
                    assert(now == was.remove(kd));
                    assert forall|k: int|
                        0 <= k < now.len() && #[trigger] now[k] != src.index implies mid.entries[now[k] as int].name
                        != stored by {
                        let k0 = if k < kd {
                            k
                        } else {
                            k + 1
                        };
                        assert(now[k] == was[k0]);
                        assert(self.child_ok(dst_dir, k0));
                        if k0 < kd {
                            assert(self.entries[was[k0] as int].name != self.entries[was[kd] as int].name);
                        } else {
                            assert(self.entries[was[kd] as int].name != self.entries[was[k0] as int].name);
                        }
                        assert(was[k0] != dst.index);
                    }
                    assert(mid.can_move(src, dst_dir, stored));
                    assert(mid.is_dir(src_dir)) by {
                        assert(mid.node_of(src_dir).meta.node_type == self.node_of(
                            src_dir,
                        ).meta.node_type);
                    }
                    mid.lemma_moved_well_formed(src, dst_dir, stored);
                }
            },
        }
    }

    /// Whether a rename that `rename_error` allows moves its entry: it does
    /// unless the new name names the entry itself.
    pub open spec fn renames(
        self,
        src_dir: Location,
        src_name: Seq<char>,
        dst_dir: Location,
        dst_name: Seq<char>,
    ) -> bool {
        let src = self.find_child(src_dir, self.stored_name(src_name))->0;
        match self.find_child(dst_dir, self.stored_name(dst_name)) {
            Some(dst) => dst != src,
            None => true,
        }
    }

    /// In a rename that `rename_error` allows, the entry that moves exists,
    /// has a parent, and is none of the two directories.
    pub open spec fn renamed_via(
        self,
        src_dir: Location,
        src_name: Seq<char>,
        dst_dir: Location,
        dst_name: Seq<char>,
    ) -> bool {
        let src = self.find_child(src_dir, self.stored_name(src_name))->0;
        &&& self.valid(src)
        &&& self.entries[src.index as int].parent == Some(src_dir.index)
        &&& src != dst_dir
        &&& !self.is_ancestor(src, dst_dir)
    }
}

/// A handle to a node of a file system. It stays the handle of that node
/// when every name of the node is gone.
#[derive(Clone, Copy, Debug, PartialEq, Eq, Structural)]
pub struct NodeId {
    pub index: usize,
}

/// One entry of a directory as a plain value.
pub struct ReadDirEntryView {
    pub name: Seq<char>,
    pub ino: u64,
    pub node_type: NodeType,
    pub offset: u64,
}

/// `len` bytes of zero.
pub open spec fn zeros(len: int) -> Seq<u8> {
    Seq::new(len as nat, |i: int| 0u8)
}

/// The content after `data` was written at `offset`: a write beyond the
/// end fills the gap with zeros, and bytes behind the written ones stay.
pub open spec fn written(content: Seq<u8>, offset: int, data: Seq<u8>) -> Seq<u8> {
    let padded = if offset > content.len() {
        content + zeros(offset - content.len())
    } else {
        content
    };
    let end = offset + data.len();
    padded.subrange(0, offset) + data + (if end < padded.len() {
        padded.subrange(end, padded.len() as int)
    } else {
        Seq::empty()
    })
}

/// The content cut or filled with zeros to `len` bytes.
pub open spec fn resized(content: Seq<u8>, len: int) -> Seq<u8> {
    if len <= content.len() {
        content.subrange(0, len)
    } else {
        content + zeros(len - content.len())
    }
}

/// The number of 512-byte blocks that a file system reports for `size`
/// bytes. FAT counts whole blocks only; ext4 counts a started block too.
pub open spec fn blocks_for(kind: FsKind, size: u64) -> u64 {
    match kind {
        FsKind::Fat => size / 512,
        FsKind::Ext4 => if size % 512 == 0 {
            size / 512
        } else {
            (size / 512 + 1) as u64
        },
    }
}

/// The largest size of a file: what a FAT entry can record, and on every
/// file system what this machine can hold.
pub open spec fn max_file_size(kind: FsKind) -> int {
    match kind {
        FsKind::Fat => if u32::MAX <= usize::MAX {
            u32::MAX as int
        } else {
            usize::MAX as int
        },
        FsKind::Ext4 => usize::MAX as int,
    }
}

impl FsView {
    /// Whether `node` names a node that holds bytes.
    pub open spec fn is_file_node(self, node: NodeId) -> bool {
        node.index < self.nodes.len() && self.nodes[node.index as int].meta.node_type
            != NodeType::Directory
    }

    /// Why `node` gives no bytes, or `None` where it does.
    pub open spec fn file_error(self, node: NodeId) -> Option<VfsError> {
        if node.index >= self.nodes.len() {
            Some(VfsError::NotFound)
        } else if self.nodes[node.index as int].meta.node_type == NodeType::Directory {
            Some(VfsError::IsADirectory)
        } else {
            None
        }
    }

    /// The bytes of `node`.
    pub open spec fn content(self, node: NodeId) -> Seq<u8> {
        self.nodes[node.index as int].content
    }

    /// The bytes that a read of at most `max` bytes at `offset` gives.
    pub open spec fn read_at(self, node: NodeId, offset: u64, max: usize) -> Seq<u8> {
        let content = self.content(node);
        let start = if offset <= content.len() {
            offset as int
        } else {
            content.len() as int
        };
        let end = if start + max <= content.len() {
            start + max
        } else {
            content.len() as int
        };
        content.subrange(start, end)
    }

    /// The file system in which `node` holds `content`, with the size and
    /// the block count that go with it.
    pub open spec fn with_content(self, node: NodeId, content: Seq<u8>) -> FsView {
        let before = self.nodes[node.index as int];
        FsView {
            nodes: self.nodes.update(
                node.index as int,
                NodeView {
                    meta: Metadata {
                        size: content.len() as u64,
                        blocks: blocks_for(self.kind, content.len() as u64),
                        ..before.meta
                    },
                    content,
                },
            ),
            ..self
        }
    }

    /// Why `node` cannot take a size of `len` bytes, or `None` where it
    /// can.
    pub open spec fn size_error(self, node: NodeId, len: int) -> Option<VfsError> {
        if self.file_error(node) is Some {
            self.file_error(node)
        } else if len > max_file_size(self.kind) {
            Some(VfsError::StorageFull)
        } else {
            None
        }
    }

    /// The entry that a listing of `dir` shows at position `k`.
    pub open spec fn dir_entry(self, dir: Location, k: int) -> ReadDirEntryView {
        let c = Location { index: self.entries[dir.index as int].children[k] };
        ReadDirEntryView {
            name: self.entries[c.index as int].name,
            ino: self.node_of(c).meta.inode,
            node_type: self.node_of(c).meta.node_type,
            offset: (k + 1) as u64,
        }
    }

    /// The entries that a listing of `dir` shows from `offset` on, at most
    /// `limit` of them.
    pub open spec fn dir_entries(self, dir: Location, offset: u64, limit: usize) -> Seq<
        ReadDirEntryView,
    > {
        let count = self.entries[dir.index as int].children.len();
        let start = if offset <= count {
            offset as int
        } else {
            count as int
        };
        let end = if start + limit <= count {
            start + limit
        } else {
            count as int
        };
        Seq::new((end - start) as nat, |i: int| self.dir_entry(dir, start + i))
    }

    /// Giving a file other bytes, with the size that goes with them, keeps
    /// the tree a tree.
    pub proof fn lemma_with_content_well_formed(self, node: NodeId, content: Seq<u8>)
        requires
            self.well_formed(),
            self.is_file_node(node),
            content.len() <= usize::MAX,
        ensures
            self.with_content(node, content).well_formed(),
            self.keeps_inodes(self.with_content(node, content)),
    {
        let after = self.with_content(node, content);
        assert forall|n: int| 0 <= n < after.nodes.len() implies #[trigger] after.node_ok(n) by {
            assert(self.node_ok(n));
        }
        self.lemma_nodes_changed_well_formed(after.nodes);
    }
}

/// The metadata of the root directory of a new file system, which has the
/// inode number `inode`.
pub open spec fn root_meta(kind: FsKind, inode: u64) -> Metadata {
    match kind {
        FsKind::Fat => crate::fat::dir::spec_root_metadata(crate::fat::util::FAT_BLOCK_SIZE, inode),
        FsKind::Ext4 => Metadata {
            device: 0,
            inode,
            nlink: 1,
            mode: NodePermission { bits: EXT4_ROOT_MODE },
            node_type: NodeType::Directory,
            uid: 0,
            gid: 0,
            size: 0,
            block_size: EXT4_BLOCK_SIZE,
            blocks: 0,
            atime: Duration::zero(),
            mtime: Duration::zero(),
            ctime: Duration::zero(),
        },
    }
}

} // verus!
