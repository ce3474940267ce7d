//! The inode numbers of a FAT file system. FAT has none on disk: the
//! adapter hands them out from a slab and takes them back.

use crate::fat::dir::FatDirNode;
use slab::Slab;
use vstd::prelude::*;

verus! {

/// `Slab` of the slab crate, which hands out keys and takes them back. It
/// is carried as it is: of its inside nothing is known but what the
/// functions below say of its keys.
#[verifier::external_type_specification]
#[verifier::external_body]
#[verifier::reject_recursive_types(T)]
pub struct ExSlab<T>(Slab<T>);

/// The keys that a slab holds.
pub uninterp spec fn slab_keys(slab: Slab<()>) -> Set<usize>;

/// The key under which a slab stores the next value: what
/// `Slab::vacant_key` tells.
pub uninterp spec fn slab_vacant_key(slab: Slab<()>) -> usize;

/// `Slab::new`: a slab that holds no key, and whose first key is 0.
#[verifier::external_body]
fn slab_new() -> (slab: Slab<()>)
    ensures
        slab_keys(slab) == Set::<usize>::empty(),
        slab_vacant_key(slab) == 0,
{
    Slab::new()
}

/// `Slab::insert`: stores a value under the vacant key, which the slab
/// did not hold, and returns that key. Which key is vacant afterwards is
/// not said. The key is an index into the vector in which the slab keeps
/// its values, a place that exists after the call: so it is less than the
/// largest `usize`.
#[verifier::external_body]
fn slab_insert(slab: &mut Slab<()>) -> (key: usize)
    ensures
        key == slab_vacant_key(*old(slab)),
        !slab_keys(*old(slab)).contains(key),
        slab_keys(*final(slab)) == slab_keys(*old(slab)).insert(key),
        key < usize::MAX,
{
    slab.insert(())
}

/// `Slab::contains`: whether the slab holds the key.
#[verifier::external_body]
fn slab_contains(slab: &Slab<()>, key: usize) -> (held: bool)
    ensures
        held == slab_keys(*slab).contains(key),
{
    slab.contains(key)
}

/// `Slab::remove`: takes the key out of the slab, and makes it the vacant
/// key. The slab must hold the key.
#[verifier::external_body]
fn slab_remove(slab: &mut Slab<()>, key: usize)
    requires
        slab_keys(*old(slab)).contains(key),
    ensures
        slab_keys(*final(slab)) == slab_keys(*old(slab)).remove(key),
        slab_vacant_key(*final(slab)) == key,
{
    slab.remove(key);
}

/// The inode number of the root directory of every FAT file system: the
/// first that the allocator hands out.
pub const FAT_ROOT_INODE: u64 = 1;

/// The state of a mounted FAT file system that the adapter keeps beside
/// the codec: the inode numbers in use.
pub struct FatFilesystemInner {
    inode_allocator: Slab<()>,
}

impl FatFilesystemInner {
    /// The inode numbers in use: each is one more than a key of the slab.
    pub closed spec fn allocated(&self) -> Set<int> {
        Set::new(
            |ino: int|
                1 <= ino <= usize::MAX + 1 && slab_keys(self.inode_allocator).contains(
                    (ino - 1) as usize,
                ),
        )
    }

    /// The inode number that is handed out next: one more than the vacant
    /// key of the slab.
    pub closed spec fn next_inode(&self) -> int {
        slab_vacant_key(self.inode_allocator) + 1
    }

    /// Makes the state of a file system on which no inode number is in
    /// use, and which hands out the number 1 first.
    pub fn new() -> (inner: FatFilesystemInner)
        ensures
            inner.allocated() == Set::<int>::empty(),
            inner.next_inode() == 1,
    {
        let inner = FatFilesystemInner { inode_allocator: slab_new() };
        proof {
            assert(inner.allocated() =~= Set::<int>::empty());
        }
        inner
    }

    /// Takes the next inode number, which is not in use, into use and
    /// returns it: one more than the key that the slab gives, so that 0 is
    /// never one.
    pub fn alloc_inode(&mut self) -> (ino: u64)
        ensures
            ino == old(self).next_inode(),
            ino >= 1,
            !old(self).allocated().contains(ino as int),
            final(self).allocated() == old(self).allocated().insert(ino as int),
    {
        let key: usize = slab_insert(&mut self.inode_allocator);
        proof {
            assert(self.allocated() =~= old(self).allocated().insert(key + 1));
        }
        key as u64 + 1
    }

    /// Takes the inode number `ino` out of use; it is the number that is
    /// handed out next. A number that is not in use is left alone.
    pub fn release_inode(&mut self, ino: u64)
        ensures
            final(self).allocated() == old(self).allocated().remove(ino as int),
            final(self).next_inode() == if old(self).allocated().contains(ino as int) {
                ino as int
            } else {
                old(self).next_inode()
            },
    {
        if ino >= 1 && ino - 1 <= usize::MAX as u64 {
            let key: usize = (ino - 1) as usize;
            if slab_contains(&self.inode_allocator, key) {
                slab_remove(&mut self.inode_allocator, key);
            }
        }
        proof {
            assert(self.allocated() =~= old(self).allocated().remove(ino as int));
        }
    }

    /// Tells whether the inode number `ino` is in use.
    pub fn is_allocated(&self, ino: u64) -> (used: bool)
        ensures
            used == self.allocated().contains(ino as int),
    {
        if ino >= 1 && ino - 1 <= usize::MAX as u64 {
            slab_contains(&self.inode_allocator, (ino - 1) as usize)
        } else {
            false
        }
    }
}

/// A mounted FAT file system as the adapter keeps it: the inode numbers,
/// and the root directory, which is put in once both exist.
pub struct FatFilesystem {
    inner: FatFilesystemInner,
    root_dir: Option<FatDirNode>,
}

impl FatFilesystem {
    /// Whether the root directory has been put in.
    pub closed spec fn wf(&self) -> bool {
        self.root_dir is Some
    }

    /// The root directory.
    pub closed spec fn spec_root_dir(&self) -> FatDirNode {
        self.root_dir->0
    }

    /// The inode numbers.
    pub closed spec fn inner(&self) -> FatFilesystemInner {
        self.inner
    }

    /// Makes the state of a newly mounted file system. The root directory
    /// takes the first inode number that the allocator hands out, which is
    /// `FAT_ROOT_INODE`, and no other number is in use.
    pub fn new() -> (fs: FatFilesystem)
        ensures
            fs.wf(),
            fs.spec_root_dir().info is None,
            fs.spec_root_dir().inode == FAT_ROOT_INODE,
            fs.inner().allocated() == Set::<int>::empty().insert(fs.spec_root_dir().inode as int),
    {
        let mut inner = FatFilesystemInner::new();
        let root_inode: u64 = inner.alloc_inode();
        let mut result = FatFilesystem { inner, root_dir: None };
        result.root_dir = Some(FatDirNode::new(None, root_inode));
        result
    }

    /// Gives access to the inode numbers.
    pub fn lock(&mut self) -> (inner: &mut FatFilesystemInner)
        ensures
            *inner == old(self).inner(),
            final(self).inner() == *final(inner),
            final(self).wf() == old(self).wf(),
            final(self).spec_root_dir() == old(self).spec_root_dir(),
    {
        &mut self.inner
    }

    /// Returns the root directory, which must have been put in.
    pub fn root_dir(&self) -> (root: FatDirNode)
        requires
            self.wf(),
        ensures
            root == self.spec_root_dir(),
    {
        match self.root_dir {
            Some(root) => root,
            None => FatDirNode::new(None, 0),
        }
    }
}

} // verus!
