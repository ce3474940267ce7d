//! The decisions of the FAT directory adapter. The adapter asks the codec
//! for one thing at a time; what it asks for, and what it makes of the
//! answer, is decided here.

use crate::error::{VfsError, VfsResult};
use crate::fat::util::{
    file_metadata, into_vfs_err, spec_file_metadata, spec_into_vfs_err, FatError, FatFileInfo,
};
use crate::strings::{ascii_lower, to_ascii_lowercase};
use crate::types::{Duration, Metadata, NodePermission, NodeType, DEFAULT_PERMISSION};
use crate::model::{ReadDirEntryView};
use crate::vfs::{ReadDirEntry, entry_views};
use vstd::prelude::*;

verus! {

/// The metadata of the root directory of a FAT volume whose sectors have
/// `bytes_per_sector` bytes. The root has no entry of its own on disk: it
/// takes one sector, and its times are the epoch.
pub open spec fn spec_root_metadata(bytes_per_sector: u64, inode: u64) -> Metadata {
    Metadata {
        inode,
        device: 0,
        nlink: 1,
        mode: NodePermission { bits: DEFAULT_PERMISSION },
        node_type: NodeType::Directory,
        uid: 0,
        gid: 0,
        size: bytes_per_sector,
        block_size: bytes_per_sector,
        blocks: 1,
        atime: Duration::zero(),
        mtime: Duration::zero(),
        ctime: Duration::zero(),
    }
}

/// Makes the metadata of the root directory of a FAT volume.
pub fn root_metadata(bytes_per_sector: u64, inode: u64) -> (metadata: Metadata)
    ensures
        metadata == spec_root_metadata(bytes_per_sector, inode),
        metadata.times_ok(),
{
    Metadata {
        inode,
        device: 0,
        nlink: 1,
        mode: NodePermission::default(),
        node_type: NodeType::Directory,
        uid: 0,
        gid: 0,
        size: bytes_per_sector,
        block_size: bytes_per_sector,
        blocks: 1,
        atime: Duration::default(),
        mtime: Duration::default(),
        ctime: Duration::default(),
    }
}

/// What the codec tells of one entry of a directory.
#[derive(Clone, Debug)]
pub struct FatEntry {
    /// The name as the volume records it.
    pub file_name: String,
    /// Whether the entry is a file; otherwise it is a directory.
    pub is_file: bool,
}

/// What an entry of a directory is to the adapter: a file with its
/// metadata, or a directory to go into. Both go by the name under which
/// the adapter keeps them.
#[derive(Clone, Debug)]
pub enum FatChild {
    File { name: String, metadata: Metadata },
    Dir { name: String, node: FatDirNode },
}

/// What the codec is asked to make.
#[derive(Clone, Copy, Debug, PartialEq, Eq, Structural)]
pub enum FatCreate {
    /// A file: the codec's `create_file`.
    File,
    /// A directory: the codec's `create_dir`.
    Dir,
}

/// A directory of a FAT volume as the adapter sees it: whether it is the
/// root, and the inode number that the adapter gave it.
#[derive(Clone, Copy, Debug, PartialEq, Eq, Structural)]
pub struct FatDirNode {
    /// What the codec tells of the directory; the root has no entry and so
    /// nothing is told of it.
    pub info: Option<FatFileInfo>,
    /// The inode number.
    pub inode: u64,
}

impl FatDirNode {
    /// Makes the adapter's view of a directory.
    pub fn new(info: Option<FatFileInfo>, inode: u64) -> (node: FatDirNode)
        ensures
            node == (FatDirNode { info, inode }),
    {
        FatDirNode { info, inode }
    }

    /// Returns the inode number.
    pub fn inode(&self) -> (inode: u64)
        ensures
            inode == self.inode,
    {
        self.inode
    }

    /// The metadata of the directory on a volume whose sectors have
    /// `bytes_per_sector` bytes.
    pub open spec fn spec_metadata(self, bytes_per_sector: u64) -> Metadata {
        match self.info {
            Some(info) => spec_file_metadata(info, NodeType::Directory),
            None => spec_root_metadata(bytes_per_sector, self.inode),
        }
    }

    /// Returns the metadata of the directory: made from its entry, or for
    /// the root, which has none, from the sector size.
    pub fn metadata(&self, bytes_per_sector: u64) -> (r: VfsResult<Metadata>)
        ensures
            r == Ok::<Metadata, VfsError>(self.spec_metadata(bytes_per_sector)),
            r matches Ok(metadata) && metadata.times_ok(),
    {
        match &self.info {
            Some(info) => Ok(file_metadata(info, NodeType::Directory)),
            None => Ok(root_metadata(bytes_per_sector, self.inode())),
        }
    }

    /// Makes of an entry that the codec found what the adapter hands on:
    /// a file with its metadata, or a directory with the inode number
    /// `inode`, under the name `name`.
    pub fn create_entry(&self, entry: &FatEntry, info: FatFileInfo, name: String, inode: u64) -> (child:
        FatChild)
        ensures
            match child {
                FatChild::File { name: kept, metadata } => entry.is_file && kept@ == name@
                    && metadata == spec_file_metadata(info, NodeType::RegularFile),
                FatChild::Dir { name: kept, node } => !entry.is_file && kept@ == name@ && node == (
                FatDirNode { info: Some(info), inode }),
            },
    {
        if entry.is_file {
            FatChild::File { name, metadata: file_metadata(&info, NodeType::RegularFile) }
        } else {
            FatChild::Dir { name, node: FatDirNode::new(Some(info), inode) }
        }
    }

    /// Has nothing to flush: the codec writes through.
    pub fn sync(&self, _data_only: bool) -> (r: VfsResult<()>)
        ensures
            r is Ok,
    {
        Ok(())
    }

    /// The name under which the adapter keeps an entry: in lower case.
    pub open spec fn spec_entry_name(name: Seq<char>) -> Seq<char> {
        ascii_lower(name)
    }

    /// Returns the name under which the adapter keeps an entry.
    pub fn entry_name(name: &str) -> (stored: String)
        ensures
            stored@ == Self::spec_entry_name(name@),
    {
        to_ascii_lowercase(name)
    }

    /// Whether an entry of the volume goes by `name`: FAT compares names
    /// without regard to ASCII case.
    pub open spec fn name_matches(file_name: Seq<char>, name: Seq<char>) -> bool {
        ascii_lower(file_name) == ascii_lower(name)
    }

    /// The position of the first of `entries` that goes by `name`.
    pub open spec fn spec_find(entries: Seq<FatEntry>, name: Seq<char>, from: int) -> Option<int>
        decreases entries.len() - from,
    {
        if from < 0 || from >= entries.len() {
            None
        } else if Self::name_matches(entries[from].file_name@, name) {
            Some(from)
        } else {
            Self::spec_find(entries, name, from + 1)
        }
    }

    /// Looks `name` up among the entries that the codec lists: returns
    /// the position of the first that goes by the name, and the name
    /// under which the adapter keeps it, or fails with `NotFound`.
    pub fn lookup(&self, entries: &Vec<FatEntry>, name: &str) -> (r: VfsResult<(usize, String)>)
        ensures
            match r {
                Ok((k, stored)) => Self::spec_find(entries@, name@, 0) == Some(k as int)
                    && stored@ == Self::spec_entry_name(name@),
                Err(e) => Self::spec_find(entries@, name@, 0) is None && e == VfsError::NotFound,
            },
    {
        let wanted = to_ascii_lowercase(name);
        let mut k: usize = 0;
        while k < entries.len()
            invariant
                k <= entries.len(),
                wanted@ == ascii_lower(name@),
                Self::spec_find(entries@, name@, 0) == Self::spec_find(entries@, name@, k as int),
            decreases entries.len() - k,
        {
            let lower = to_ascii_lowercase(entries[k].file_name.as_str());
            if lower == wanted {
                return Ok((k, wanted));
            }
            k += 1;
        }
        Err(VfsError::NotFound)
    }

    /// What the codec is asked for when a node of type `node_type` is to
    /// be made: FAT has files and directories only.
    pub open spec fn spec_create_request(node_type: NodeType) -> VfsResult<FatCreate> {
        match node_type {
            NodeType::RegularFile => Ok(FatCreate::File),
            NodeType::Directory => Ok(FatCreate::Dir),
            _ => Err(VfsError::InvalidInput),
        }
    }

    /// Decides what to ask of the codec for a node of type `node_type`.
    pub fn create_request(node_type: NodeType) -> (r: VfsResult<FatCreate>)
        ensures
            r == Self::spec_create_request(node_type),
    {
        match node_type {
            NodeType::RegularFile => Ok(FatCreate::File),
            NodeType::Directory => Ok(FatCreate::Dir),
            _ => Err(VfsError::InvalidInput),
        }
    }

    /// What making `name` among `entries` comes to: the request to the
    /// codec, or `InvalidInput` for what FAT cannot hold, or
    /// `AlreadyExists` where an entry goes by the name.
    pub open spec fn spec_create(
        entries: Seq<FatEntry>,
        name: Seq<char>,
        node_type: NodeType,
    ) -> VfsResult<FatCreate> {
        match Self::spec_create_request(node_type) {
            Err(e) => Err(e),
            Ok(request) => if Self::spec_find(entries, name, 0) is Some {
                Err(VfsError::AlreadyExists)
            } else {
                Ok(request)
            },
        }
    }

    /// Decides what to ask of the codec when `name` is to be made as a
    /// node of type `node_type` in the directory that lists `entries`:
    /// returns the request and the name under which the adapter keeps the
    /// entry. The codec would open what exists, so the adapter looks
    /// first. The mode is not looked at here: the volume has no place for
    /// it.
    pub fn create(
        &self,
        entries: &Vec<FatEntry>,
        name: &str,
        node_type: NodeType,
        _permission: NodePermission,
    ) -> (r: VfsResult<(FatCreate, String)>)
        ensures
            match r {
                Ok((request, stored)) => Self::spec_create(entries@, name@, node_type) == Ok::<
                    FatCreate,
                    VfsError,
                >(request) && stored@ == Self::spec_entry_name(name@),
                Err(e) => Self::spec_create(entries@, name@, node_type) == Err::<
                    FatCreate,
                    VfsError,
                >(e),
            },
    {
        let request = match Self::create_request(node_type) {
            Ok(request) => request,
            Err(e) => {
                return Err(e);
            },
        };
        match self.lookup(entries, name) {
            Ok(_) => Err(VfsError::AlreadyExists),
            Err(_) => Ok((request, to_ascii_lowercase(name))),
        }
    }

    /// Makes of the codec's answer to a request what the adapter returns.
    pub fn finish(&self, answer: Result<(), FatError>) -> (r: VfsResult<()>)
        ensures
            r == match answer {
                Ok(_) => Ok::<(), VfsError>(()),
                Err(e) => Err::<(), VfsError>(spec_into_vfs_err(e)),
            },
    {
        match answer {
            Ok(_) => Ok(()),
            Err(e) => Err(into_vfs_err(e)),
        }
    }

    /// Refuses to make a hard link: FAT has none.
    pub fn link(&self, _name: &str) -> (r: VfsResult<()>)
        ensures
            r == Err::<(), VfsError>(VfsError::PermissionDenied),
    {
        Err(VfsError::PermissionDenied)
    }

    /// Makes of the codec's answer to `remove` what `unlink` returns.
    pub fn unlink(&self, removed: Result<(), FatError>) -> (r: VfsResult<()>)
        ensures
            r == match removed {
                Ok(_) => Ok::<(), VfsError>(()),
                Err(e) => Err::<(), VfsError>(spec_into_vfs_err(e)),
            },
    {
        self.finish(removed)
    }

    /// Decides how a rename goes on after the codec was asked to remove
    /// what is in the way: on with the rename where something was removed
    /// or nothing was there, and out with the error otherwise.
    ///
    /// On a volume the removal has happened when the rename itself fails:
    /// the codec cannot take it back. The tree of `vfs` decides before it
    /// changes anything, and a rename that fails there changes nothing;
    /// that tree is what the system calls work on.
    pub fn rename(&self, removed: Result<(), FatError>) -> (r: VfsResult<()>)
        ensures
            r == match removed {
                Ok(_) => Ok::<(), VfsError>(()),
                Err(FatError::NotFound) => Ok::<(), VfsError>(()),
                Err(e) => Err::<(), VfsError>(spec_into_vfs_err(e)),
            },
    {
        match removed {
            Ok(_) => Ok(()),
            Err(FatError::NotFound) => Ok(()),
            Err(e) => Err(into_vfs_err(e)),
        }
    }

    /// The entry that a listing shows for position `k` of what the codec
    /// lists: the name in lower case, and the place behind it.
    pub open spec fn spec_listed(entries: Seq<FatEntry>, k: int) -> ReadDirEntryView {
        ReadDirEntryView {
            name: ascii_lower(entries[k].file_name@),
            ino: 1,
            node_type: if entries[k].is_file {
                NodeType::RegularFile
            } else {
                NodeType::Directory
            },
            offset: (k + 1) as u64,
        }
    }

    /// What a listing from `offset` on shows when the sink takes `limit`
    /// entries: the entry that fills the sink is the last one shown.
    pub open spec fn spec_read_dir(entries: Seq<FatEntry>, offset: u64, limit: usize) -> Seq<
        ReadDirEntryView,
    > {
        let start = if offset <= entries.len() {
            offset as int
        } else {
            entries.len() as int
        };
        let end = if start + limit <= entries.len() {
            start + limit
        } else {
            entries.len() as int
        };
        Seq::new((end - start) as nat, |i: int| Self::spec_listed(entries, start + i))
    }

    /// Lists what the codec lists, from `offset` on, until `limit` entries
    /// are shown or the entries are at their end.
    pub fn read_dir(&self, entries: &Vec<FatEntry>, offset: u64, limit: usize) -> (r: VfsResult<
        Vec<ReadDirEntry>,
    >)
        ensures
            r matches Ok(listed) && entry_views(listed@) == Self::spec_read_dir(
                entries@,
                offset,
                limit,
            ),
    {
        let count: usize = entries.len();
        let start: usize = if offset <= count as u64 {
            offset as usize
        } else {
            count
        };
        let end: usize = if limit <= count - start {
            start + limit
        } else {
            count
        };
        let mut listed: Vec<ReadDirEntry> = Vec::new();
        let mut k: usize = start;
        while k < end
            invariant
                start <= k <= end <= count,
                count == entries@.len(),
                listed@.len() == k - start,
                forall|i: int|
                    0 <= i < listed@.len() ==> (#[trigger] listed@[i])@ == Self::spec_listed(
                        entries@,
                        start + i,
                    ),
            decreases end - k,
        {
            let node_type = if entries[k].is_file {
                NodeType::RegularFile
            } else {
                NodeType::Directory
            };
            listed.push(
                ReadDirEntry {
                    name: to_ascii_lowercase(entries[k].file_name.as_str()),
                    ino: 1,
                    node_type,
                    offset: (k + 1) as u64,
                },
            );
            k += 1;
        }
        proof {
            assert(entry_views(listed@) =~= Self::spec_read_dir(entries@, offset, limit));
        }
        Ok(listed)
    }
}

} // verus!
