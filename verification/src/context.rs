//! Path resolution and the operations that go by paths.

use crate::error::{VfsError, VfsResult};
use crate::path::{
    component_views, components, file_name, path_components, spec_dir_components, spec_file_name,
    Component, ComponentView,
};
use crate::file::{File, FileFlags, OpenOptions, OpenResult};
use crate::strings::string_from_utf8;
use crate::types::{Metadata, NodePermission, NodeType, DEFAULT_PERMISSION};
use crate::model::{FsView, Location, NodeId, ReadDirEntryView, max_file_size, new_node_meta, path_text};
use crate::vfs::{Filesystem, ReadDirEntry, entry_views};
use std::collections::VecDeque;
use vstd::prelude::*;

verus! {

/// The view of a file system that one task has: the directory that it
/// takes for the root, and the directory that relative paths start from.
#[derive(Clone, Copy, Debug, PartialEq, Eq, Structural)]
pub struct FsContext {
    pub root_dir: Location,
    pub current_dir: Location,
}

/// What a walk that stands at `cur` reaches with one more component.
pub open spec fn step(fs: FsView, root: Location, cur: Location, component: ComponentView) -> VfsResult<
    Location,
> {
    match component {
        ComponentView::CurDir => Ok(cur),
        ComponentView::ParentDir => if fs.valid(cur) && fs.parent(cur) is Some {
            Ok(fs.parent(cur)->0)
        } else {
            Ok(root)
        },
        ComponentView::RootDir => Ok(root),
        ComponentView::Normal(name) => fs.lookup(cur, name),
    }
}

/// Where a walk from `cur` through `components` ends.
pub open spec fn walk(
    fs: FsView,
    root: Location,
    cur: Location,
    components: Seq<ComponentView>,
) -> VfsResult<Location>
    decreases components.len(),
{
    if components.len() == 0 {
        Ok(cur)
    } else {
        match step(fs, root, cur, components[0]) {
            Ok(next) => walk(fs, root, next, components.drop_first()),
            Err(e) => Err(e),
        }
    }
}

/// `loc` where it is a directory, and the error that says what it is not.
pub open spec fn as_dir(fs: FsView, loc: Location) -> VfsResult<Location> {
    if !fs.valid(loc) {
        Err(VfsError::NotFound)
    } else if !fs.is_dir(loc) {
        Err(VfsError::NotADirectory)
    } else {
        Ok(loc)
    }
}

impl FsContext {
    /// The directory in which a path ends: where the walk through all
    /// components but a last name arrives, which must be a directory.
    pub open spec fn spec_resolve_dir(self, fs: FsView, components: Seq<ComponentView>) -> VfsResult<
        Location,
    > {
        match walk(fs, self.root_dir, self.current_dir, spec_dir_components(components)) {
            Ok(dir) => as_dir(fs, dir),
            Err(e) => Err(e),
        }
    }

    /// The entry that a path names.
    pub open spec fn spec_resolve(self, fs: FsView, components: Seq<ComponentView>) -> VfsResult<
        Location,
    > {
        match self.spec_resolve_dir(fs, components) {
            Ok(dir) => match spec_file_name(components) {
                Some(name) => fs.lookup(dir, name),
                None => Ok(dir),
            },
            Err(e) => Err(e),
        }
    }

    /// The directory and the name by which a path names its entry. A path
    /// that ends in no name names a directory: then these are the
    /// directory above it and its own name. The root has neither.
    pub open spec fn spec_resolve_parent(
        self,
        fs: FsView,
        components: Seq<ComponentView>,
    ) -> VfsResult<(Location, Seq<char>)> {
        match self.spec_resolve_dir(fs, components) {
            Ok(dir) => match spec_file_name(components) {
                Some(name) => Ok((dir, name)),
                None => match fs.parent(dir) {
                    Some(parent) => Ok((parent, fs.entries[dir.index as int].name)),
                    None => Err(VfsError::InvalidInput),
                },
            },
            Err(e) => Err(e),
        }
    }

    /// The directory and the name under which a path wants an entry made.
    /// A path that ends in no name names what exists already.
    pub open spec fn spec_resolve_nonexistent(
        self,
        fs: FsView,
        components: Seq<ComponentView>,
    ) -> VfsResult<(Location, Seq<char>)> {
        match self.spec_resolve_dir(fs, components) {
            Ok(dir) => match spec_file_name(components) {
                Some(name) => Ok((dir, name)),
                None => Err(VfsError::AlreadyExists),
            },
            Err(e) => Err(e),
        }
    }

    /// Makes a context whose current directory is its root.
    pub fn new(root_dir: Location) -> (context: FsContext)
        ensures
            context.root_dir == root_dir,
            context.current_dir == root_dir,
    {
        FsContext { root_dir, current_dir: root_dir }
    }

    /// Returns the directory that this context takes for the root.
    pub fn root_dir(&self) -> (root: Location)
        ensures
            root == self.root_dir,
    {
        self.root_dir
    }

    /// Returns the directory that relative paths start from.
    pub fn current_dir(&self) -> (current: Location)
        ensures
            current == self.current_dir,
    {
        self.current_dir
    }

    /// Makes `current_dir` the directory that relative paths start from.
    /// Fails, and changes nothing, unless it is a directory.
    pub fn set_current_dir(&mut self, fs: &Filesystem, current_dir: Location) -> (r: VfsResult<()>)
        requires
            fs.wf(),
        ensures
            match r {
                Ok(_) => as_dir(fs@, current_dir) is Ok && *final(self) == (FsContext {
                    current_dir,
                    ..*old(self)
                }),
                Err(e) => as_dir(fs@, current_dir) == Err::<Location, VfsError>(e) && *final(self)
                    == *old(self),
            },
    {
        match fs.check_is_dir(current_dir) {
            Ok(_) => {
                self.current_dir = current_dir;
                Ok(())
            },
            Err(e) => Err(e),
        }
    }

    /// Returns a context with the same root whose relative paths start
    /// from `current_dir`. Fails unless that is a directory.
    pub fn with_current_dir(&self, fs: &Filesystem, current_dir: Location) -> (r: VfsResult<
        FsContext,
    >)
        requires
            fs.wf(),
        ensures
            match r {
                Ok(context) => as_dir(fs@, current_dir) is Ok && context == (FsContext {
                    current_dir,
                    ..*self
                }),
                Err(e) => as_dir(fs@, current_dir) == Err::<Location, VfsError>(e),
            },
    {
        match fs.check_is_dir(current_dir) {
            Ok(_) => Ok(FsContext { root_dir: self.root_dir, current_dir }),
            Err(e) => Err(e),
        }
    }

    /// Walks from `start` through the first `count` of `parsed`.
    fn walk_components(
        &self,
        fs: &Filesystem,
        start: Location,
        parsed: &Vec<Component>,
        count: usize,
    ) -> (r: VfsResult<Location>)
        requires
            fs.wf(),
            count <= parsed.len(),
        ensures
            r == walk(fs@, self.root_dir, start, component_views(parsed@).subrange(0, count as int)),
    {
        let ghost all = component_views(parsed@).subrange(0, count as int);
        let mut dir = start;
        let mut i: usize = 0;
        proof {
            assert(all.skip(0) =~= all);
        }
        while i < count
            invariant
                fs.wf(),
                i <= count <= parsed.len(),
                all == component_views(parsed@).subrange(0, count as int),
                walk(fs@, self.root_dir, start, all) == walk(fs@, self.root_dir, dir, all.skip(i as int)),
            decreases count - i,
        {
            proof {
                assert(all.skip(i as int)[0] == parsed@[i as int]@);
                assert(all.skip(i as int).drop_first() =~= all.skip(i + 1));
            }
            let next = match &parsed[i] {
                Component::CurDir => dir,
                Component::ParentDir => match fs.parent(dir) {
                    Some(parent) => parent,
                    None => self.root_dir,
                },
                Component::RootDir => self.root_dir,
                Component::Normal(name) => match fs.lookup(dir, name.as_str()) {
                    Ok(found) => found,
                    Err(e) => {
                        return Err(e);
                    },
                },
            };
            dir = next;
            i += 1;
        }
        Ok(dir)
    }

    /// Resolves all of a path but the name that it ends in: returns the
    /// directory that holds what the path names, and that name, or the
    /// directory that the path names and no name.
    pub fn resolve_inner(&self, fs: &Filesystem, parsed: &Vec<Component>) -> (r: VfsResult<
        (Location, Option<String>),
    >)
        requires
            fs.wf(),
        ensures
            match r {
                Ok((dir, name)) => {
                    &&& self.spec_resolve_dir(fs@, component_views(parsed@)) == Ok::<
                        Location,
                        VfsError,
                    >(dir)
                    &&& fs@.is_dir(dir)
                    &&& match name {
                        Some(name) => spec_file_name(component_views(parsed@)) == Some(name@),
                        None => spec_file_name(component_views(parsed@)) is None,
                    }
                },
                Err(e) => self.spec_resolve_dir(fs@, component_views(parsed@)) == Err::<
                    Location,
                    VfsError,
                >(e),
            },
    {
        let name = file_name(parsed);
        let count: usize = if name.is_some() {
            parsed.len() - 1
        } else {
            parsed.len()
        };
        proof {
            let all = component_views(parsed@);
            assert(all.subrange(0, count as int) =~= spec_dir_components(all));
        }
        let dir = match self.walk_components(fs, self.current_dir, parsed, count) {
            Ok(dir) => dir,
            Err(e) => {
                return Err(e);
            },
        };
        match fs.check_is_dir(dir) {
            Ok(_) => Ok((dir, name)),
            Err(e) => Err(e),
        }
    }

    /// Resolves a path that is given by its components.
    pub fn resolve_components(&self, fs: &Filesystem, parsed: &Vec<Component>) -> (r: VfsResult<
        Location,
    >)
        requires
            fs.wf(),
        ensures
            r == self.spec_resolve(fs@, component_views(parsed@)),
    {
        match self.resolve_inner(fs, parsed) {
            Ok((dir, name)) => match name {
                Some(name) => fs.lookup(dir, name.as_str()),
                None => Ok(dir),
            },
            Err(e) => Err(e),
        }
    }

    /// Resolves a path that is given by its components to the directory
    /// and the name by which it names its entry.
    pub fn resolve_parent_components(&self, fs: &Filesystem, parsed: &Vec<Component>) -> (r:
        VfsResult<(Location, String)>)
        requires
            fs.wf(),
        ensures
            match r {
                Ok((dir, name)) => self.spec_resolve_parent(fs@, component_views(parsed@)) == Ok::<
                    (Location, Seq<char>),
                    VfsError,
                >((dir, name@)),
                Err(e) => self.spec_resolve_parent(fs@, component_views(parsed@)) == Err::<
                    (Location, Seq<char>),
                    VfsError,
                >(e),
            },
    {
        match self.resolve_inner(fs, parsed) {
            Ok((dir, name)) => match name {
                Some(name) => Ok((dir, name)),
                None => match fs.parent(dir) {
                    Some(parent) => Ok((parent, fs.name(dir))),
                    None => Err(VfsError::InvalidInput),
                },
            },
            Err(e) => Err(e),
        }
    }

    /// Resolves a path that is given by its components to the directory
    /// and the name under which it wants an entry made.
    pub fn resolve_nonexistent_components(&self, fs: &Filesystem, parsed: &Vec<Component>) -> (r:
        VfsResult<(Location, String)>)
        requires
            fs.wf(),
        ensures
            match r {
                Ok((dir, name)) => self.spec_resolve_nonexistent(fs@, component_views(parsed@))
                    == Ok::<(Location, Seq<char>), VfsError>((dir, name@)),
                Err(e) => self.spec_resolve_nonexistent(fs@, component_views(parsed@)) == Err::<
                    (Location, Seq<char>),
                    VfsError,
                >(e),
            },
    {
        match self.resolve_inner(fs, parsed) {
            Ok((dir, name)) => match name {
                Some(name) => Ok((dir, name)),
                None => Err(VfsError::AlreadyExists),
            },
            Err(e) => Err(e),
        }
    }

    /// Resolves `path`, starting from the current directory.
    ///
    /// `.` changes nothing, `..` goes to the directory above, or to the
    /// root of this context where there is none, a leading `/` goes to
    /// the root, and a name is looked up in the directory reached so far.
    pub fn resolve(&self, fs: &Filesystem, path: &str) -> (r: VfsResult<Location>)
        requires
            fs.wf(),
        ensures
            r == self.spec_resolve(fs@, path_components(path@)),
    {
        let parsed = components(path);
        self.resolve_components(fs, &parsed)
    }

    /// Resolves `path` to the directory and the name by which it names its
    /// entry. Fails with `InvalidInput` for the root, which has neither.
    pub fn resolve_parent(&self, fs: &Filesystem, path: &str) -> (r: VfsResult<(Location, String)>)
        requires
            fs.wf(),
        ensures
            match r {
                Ok((dir, name)) => self.spec_resolve_parent(fs@, path_components(path@)) == Ok::<
                    (Location, Seq<char>),
                    VfsError,
                >((dir, name@)),
                Err(e) => self.spec_resolve_parent(fs@, path_components(path@)) == Err::<
                    (Location, Seq<char>),
                    VfsError,
                >(e),
            },
    {
        let parsed = components(path);
        self.resolve_parent_components(fs, &parsed)
    }

    /// Resolves `path` to the directory and the name under which it wants
    /// an entry made. Fails with `AlreadyExists` where the path ends in no
    /// name. Whether the directory has that name already is not looked at.
    pub fn resolve_nonexistent(&self, fs: &Filesystem, path: &str) -> (r: VfsResult<
        (Location, String),
    >)
        requires
            fs.wf(),
        ensures
            match r {
                Ok((dir, name)) => self.spec_resolve_nonexistent(fs@, path_components(path@))
                    == Ok::<(Location, Seq<char>), VfsError>((dir, name@)),
                Err(e) => self.spec_resolve_nonexistent(fs@, path_components(path@)) == Err::<
                    (Location, Seq<char>),
                    VfsError,
                >(e),
            },
    {
        let parsed = components(path);
        self.resolve_nonexistent_components(fs, &parsed)
    }

    /// Returns the metadata of what `path` names.
    pub fn metadata(&self, fs: &Filesystem, path: &str) -> (r: VfsResult<Metadata>)
        requires
            fs.wf(),
        ensures
            r == match self.spec_resolve(fs@, path_components(path@)) {
                Ok(loc) => if fs@.valid(loc) {
                    Ok::<Metadata, VfsError>(fs@.node_of(loc).meta)
                } else {
                    Err::<Metadata, VfsError>(VfsError::NotFound)
                },
                Err(e) => Err::<Metadata, VfsError>(e),
            },
    {
        match self.resolve(fs, path) {
            Ok(loc) => fs.metadata(loc),
            Err(e) => Err(e),
        }
    }

    /// Returns the absolute path of what `path` names.
    pub fn canonicalize(&self, fs: &Filesystem, path: &str) -> (r: VfsResult<String>)
        requires
            fs.wf(),
        ensures
            match r {
                Ok(text) => self.spec_resolve(fs@, path_components(path@)) matches Ok(loc)
                    && fs@.valid(loc) && text@ == path_text(fs@.absolute_names(loc)),
                Err(e) => match self.spec_resolve(fs@, path_components(path@)) {
                    Ok(loc) => !fs@.valid(loc) && e == VfsError::NotFound,
                    Err(e2) => e == e2,
                },
            },
    {
        match self.resolve(fs, path) {
            Ok(loc) => fs.absolute_path(loc),
            Err(e) => Err(e),
        }
    }

    /// Makes a new, empty directory at `path`, with the mode `mode`.
    pub fn create_dir(&self, fs: &mut Filesystem, path: &str, mode: NodePermission) -> (r: VfsResult<
        Location,
    >)
        requires
            old(fs).wf(),
        ensures
            final(fs).wf(),
            match self.spec_resolve_nonexistent(old(fs)@, path_components(path@)) {
                Err(e) => r == Err::<Location, VfsError>(e) && final(fs)@ == old(fs)@,
                Ok((dir, name)) => old(fs)@.creates(
                    dir,
                    name,
                    NodeType::Directory,
                    mode,
                    final(fs)@,
                    r,
                ),
            },
    {
        match self.resolve_nonexistent(fs, path) {
            Ok((dir, name)) => fs.create(dir, name.as_str(), NodeType::Directory, mode),
            Err(e) => Err(e),
        }
    }

    /// What removing the entry that `path` names comes to: the directory
    /// and the name to remove, or the error. The root has no directory
    /// above it: `at_root` is the error for that.
    pub open spec fn spec_remove_target(
        self,
        fs: FsView,
        components: Seq<ComponentView>,
        at_root: VfsError,
    ) -> VfsResult<(Location, Seq<char>)> {
        match self.spec_resolve(fs, components) {
            Ok(entry) => if fs.valid(entry) && fs.parent(entry) is Some {
                Ok((fs.parent(entry)->0, fs.entries[entry.index as int].name))
            } else {
                Err(at_root)
            },
            Err(e) => Err(e),
        }
    }

    fn remove(&self, fs: &mut Filesystem, path: &str, is_dir: bool, at_root: VfsError) -> (r:
        VfsResult<()>)
        requires
            old(fs).wf(),
        ensures
            final(fs).wf(),
            match self.spec_remove_target(old(fs)@, path_components(path@), at_root) {
                Err(e) => r == Err::<(), VfsError>(e) && final(fs)@ == old(fs)@,
                Ok((dir, name)) => match r {
                    Ok(_) => {
                        &&& old(fs)@.unlink_error(dir, name, is_dir) is None
                        &&& final(fs)@ == old(fs)@.unlinked(dir, name)
                    },
                    Err(e) => old(fs)@.unlink_error(dir, name, is_dir) == Some(e) && final(fs)@
                        == old(fs)@,
                },
            },
    {
        let entry = match self.resolve(fs, path) {
            Ok(entry) => entry,
            Err(e) => {
                return Err(e);
            },
        };
        match fs.parent(entry) {
            Some(parent) => {
                let name = fs.name(entry);
                fs.unlink(parent, name.as_str(), is_dir)
            },
            None => Err(at_root),
        }
    }

    /// Removes the file that `path` names. The root is a directory that
    /// nothing holds: for it the call fails with `IsADirectory`.
    pub fn remove_file(&self, fs: &mut Filesystem, path: &str) -> (r: VfsResult<()>)
        requires
            old(fs).wf(),
        ensures
            final(fs).wf(),
            match self.spec_remove_target(
                old(fs)@,
                path_components(path@),
                VfsError::IsADirectory,
            ) {
                Err(e) => r == Err::<(), VfsError>(e) && final(fs)@ == old(fs)@,
                Ok((dir, name)) => match r {
                    Ok(_) => {
                        &&& old(fs)@.unlink_error(dir, name, false) is None
                        &&& final(fs)@ == old(fs)@.unlinked(dir, name)
                    },
                    Err(e) => old(fs)@.unlink_error(dir, name, false) == Some(e) && final(fs)@
                        == old(fs)@,
                },
            },
    {
        self.remove(fs, path, false, VfsError::IsADirectory)
    }

    /// Removes the empty directory that `path` names. The root cannot go:
    /// for it the call fails with `ResourceBusy`.
    pub fn remove_dir(&self, fs: &mut Filesystem, path: &str) -> (r: VfsResult<()>)
        requires
            old(fs).wf(),
        ensures
            final(fs).wf(),
            match self.spec_remove_target(
                old(fs)@,
                path_components(path@),
                VfsError::ResourceBusy,
            ) {
                Err(e) => r == Err::<(), VfsError>(e) && final(fs)@ == old(fs)@,
                Ok((dir, name)) => match r {
                    Ok(_) => {
                        &&& old(fs)@.unlink_error(dir, name, true) is None
                        &&& final(fs)@ == old(fs)@.unlinked(dir, name)
                    },
                    Err(e) => old(fs)@.unlink_error(dir, name, true) == Some(e) && final(fs)@
                        == old(fs)@,
                },
            },
    {
        self.remove(fs, path, true, VfsError::ResourceBusy)
    }

    /// Renames what `from` names to what `to` names, replacing an entry
    /// that is in the way.
    pub fn rename(&self, fs: &mut Filesystem, from: &str, to: &str) -> (r: VfsResult<()>)
        requires
            old(fs).wf(),
        ensures
            final(fs).wf(),
            match self.spec_resolve_parent(old(fs)@, path_components(from@)) {
                Err(e) => r == Err::<(), VfsError>(e) && final(fs)@ == old(fs)@,
                Ok((src_dir, src_name)) => match self.spec_resolve_parent(
                    old(fs)@,
                    path_components(to@),
                ) {
                    Err(e) => r == Err::<(), VfsError>(e) && final(fs)@ == old(fs)@,
                    Ok((dst_dir, dst_name)) => match r {
                        Ok(_) => old(fs)@.rename_error(src_dir, src_name, dst_dir, dst_name) is None
                            && final(fs)@ == old(fs)@.renamed(src_dir, src_name, dst_dir, dst_name),
                        Err(e) => old(fs)@.rename_error(src_dir, src_name, dst_dir, dst_name)
                            == Some(e) && final(fs)@ == old(fs)@,
                    },
                },
            },
    {
        let (src_dir, src_name) = match self.resolve_parent(fs, from) {
            Ok(found) => found,
            Err(e) => {
                return Err(e);
            },
        };
        let (dst_dir, dst_name) = match self.resolve_parent(fs, to) {
            Ok(found) => found,
            Err(e) => {
                return Err(e);
            },
        };
        fs.rename(src_dir, src_name.as_str(), dst_dir, dst_name.as_str())
    }

    /// Makes `new_path` another name of the file that `old_path` names.
    pub fn link(&self, fs: &mut Filesystem, old_path: &str, new_path: &str) -> (r: VfsResult<
        Location,
    >)
        requires
            old(fs).wf(),
        ensures
            final(fs).wf(),
            match self.spec_resolve(old(fs)@, path_components(old_path@)) {
                Err(e) => r == Err::<Location, VfsError>(e) && final(fs)@ == old(fs)@,
                Ok(target) => match self.spec_resolve_nonexistent(
                    old(fs)@,
                    path_components(new_path@),
                ) {
                    Err(e) => r == Err::<Location, VfsError>(e) && final(fs)@ == old(fs)@,
                    Ok((dir, name)) => match r {
                        Ok(loc) => {
                            &&& old(fs)@.link_error(dir, name, target) is None
                            &&& loc.index == old(fs)@.entries.len()
                            &&& final(fs)@ == old(fs)@.linked(dir, name, target)
                        },
                        Err(e) => old(fs)@.link_error(dir, name, target) == Some(e) && final(fs)@
                            == old(fs)@,
                    },
                },
            },
    {
        let target = match self.resolve(fs, old_path) {
            Ok(target) => target,
            Err(e) => {
                return Err(e);
            },
        };
        let (dir, name) = match self.resolve_nonexistent(fs, new_path) {
            Ok(found) => found,
            Err(e) => {
                return Err(e);
            },
        };
        fs.link(dir, name.as_str(), target)
    }
}

impl FsContext {
    /// The bytes of the file that a path names.
    pub open spec fn spec_read(self, fs: FsView, components: Seq<ComponentView>) -> VfsResult<
        Seq<u8>,
    > {
        match self.spec_resolve(fs, components) {
            Ok(loc) => if !fs.valid(loc) {
                Err(VfsError::NotFound)
            } else {
                let node = NodeId { index: fs.entries[loc.index as int].node };
                match fs.file_error(node) {
                    Some(e) => Err(e),
                    None => Ok(fs.content(node)),
                }
            },
            Err(e) => Err(e),
        }
    }

    /// Reads the whole file that `path` names.
    pub fn read(&self, fs: &Filesystem, path: &str) -> (r: VfsResult<Vec<u8>>)
        requires
            fs.wf(),
        ensures
            match r {
                Ok(bytes) => self.spec_read(fs@, path_components(path@)) == Ok::<Seq<u8>, VfsError>(
                    bytes@,
                ),
                Err(e) => self.spec_read(fs@, path_components(path@)) == Err::<Seq<u8>, VfsError>(
                    e,
                ),
            },
    {
        let loc = match self.resolve(fs, path) {
            Ok(loc) => loc,
            Err(e) => {
                return Err(e);
            },
        };
        let node = match fs.node_id(loc) {
            Ok(node) => node,
            Err(e) => {
                return Err(e);
            },
        };
        let mut file = File::new(node, FileFlags { read: true, write: false, append: false });
        match file.read_to_end(fs) {
            Ok(bytes) => {
                proof {
                    assert(bytes@ =~= fs@.content(node));
                }
                Ok(bytes)
            },
            Err(e) => Err(e),
        }
    }

    /// Reads the whole file that `path` names as text. Bytes that are not
    /// UTF-8 give `InvalidInput`.
    pub fn read_to_string(&self, fs: &Filesystem, path: &str) -> (r: VfsResult<String>)
        requires
            fs.wf(),
        ensures
            match self.spec_read(fs@, path_components(path@)) {
                Ok(bytes) => if vstd::utf8::valid_utf8(bytes) {
                    r matches Ok(text) && text@ == vstd::utf8::decode_utf8(bytes)
                } else {
                    r matches Err(e) && e == VfsError::InvalidInput
                },
                Err(e) => r matches Err(e2) && e2 == e,
            },
    {
        match self.read(fs, path) {
            Ok(bytes) => match string_from_utf8(bytes) {
                Some(text) => Ok(text),
                None => Err(VfsError::InvalidInput),
            },
            Err(e) => Err(e),
        }
    }

    /// Whether `r` and `after` are what putting `data` into the file
    /// `node` of `before` as its whole content gives. A file that would be
    /// too large is left empty.
    pub open spec fn puts(
        before: FsView,
        node: NodeId,
        data: Seq<u8>,
        after: FsView,
        r: VfsResult<()>,
    ) -> bool {
        if data.len() > max_file_size(before.kind) {
            r == Err::<(), VfsError>(VfsError::StorageFull) && after == before.with_content(
                node,
                Seq::empty(),
            )
        } else {
            r is Ok && after == before.with_content(node, data)
        }
    }

    /// Whether `r` and `after` are what writing `data` to the path
    /// `components` of `before` gives: the file is made where there is
    /// none, and `data` becomes its whole content.
    pub open spec fn writes(
        self,
        before: FsView,
        components: Seq<ComponentView>,
        data: Seq<u8>,
        after: FsView,
        r: VfsResult<()>,
    ) -> bool {
        match self.spec_resolve(before, components) {
            Ok(loc) => if !before.valid(loc) {
                r == Err::<(), VfsError>(VfsError::NotFound) && after == before
            } else if before.is_dir(loc) {
                r == Err::<(), VfsError>(VfsError::IsADirectory) && after == before
            } else {
                Self::puts(
                    before,
                    NodeId { index: before.entries[loc.index as int].node },
                    data,
                    after,
                    r,
                )
            },
            Err(e) => if e != VfsError::NotFound {
                r == Err::<(), VfsError>(e) && after == before
            } else {
                match self.spec_resolve_nonexistent(before, components) {
                    Err(e) => r == Err::<(), VfsError>(e) && after == before,
                    Ok((dir, name)) => match before.create_error(dir, name, NodeType::RegularFile) {
                        Some(e) => r == Err::<(), VfsError>(e) && after == before,
                        None => (r == Err::<(), VfsError>(VfsError::StorageFull) && after == before
                            && before.lacks_inodes())
                            || (after.nodes.len() == before.nodes.len() + 1 && Self::puts(
                            before.created(
                                dir,
                                name,
                                new_node_meta(
                                    before.kind,
                                    NodeType::RegularFile,
                                    NodePermission { bits: DEFAULT_PERMISSION },
                                    after.nodes.last().meta.inode,
                                ),
                            ),
                            NodeId { index: before.nodes.len() as usize },
                            data,
                            after,
                            r,
                        )),
                    },
                }
            },
        }
    }

    /// Makes `data` the whole content of the file that `path` names; the
    /// file is made where there is none.
    pub fn write(&self, fs: &mut Filesystem, path: &str, data: &[u8]) -> (r: VfsResult<()>)
        requires
            old(fs).wf(),
        ensures
            final(fs).wf(),
            self.writes(old(fs)@, path_components(path@), data@, final(fs)@, r),
    {
        let options = OpenOptions {
            read: false,
            write: true,
            append: false,
            truncate: true,
            create: true,
            create_new: false,
            directory: false,
            execute: false,
            mode: NodePermission::default(),
        };
        let opened = match options.open(self, fs, path) {
            Ok(opened) => opened,
            Err(e) => {
                return Err(e);
            },
        };
        let ghost before = old(fs)@;
        let ghost mid = fs@;
        let mut file = match opened {
            OpenResult::File(file) => file,
            OpenResult::Dir(_) => {
                return Err(VfsError::IsADirectory);
            },
        };
        let ghost node = file.node;
        let ghost empty = Seq::<u8>::empty();
        proof {
            let parsed = path_components(path@);
            match self.spec_resolve(before, parsed) {
                Ok(loc) => {
                    assert(before.entry_ok(loc));
                    assert(mid == before.with_content(node, empty));
                },
                Err(_) => {
                    assert(mid.nodes.len() == before.nodes.len() + 1);
                    assert(node.index == before.nodes.len());
                    assert(mid.nodes[node.index as int] == mid.nodes.last());
                },
            }
            assert(mid.nodes[node.index as int].content =~= empty);
            assert(crate::model::written(empty, 0, data@) =~= data@);
            assert(crate::model::blocks_for(mid.kind, 0) == 0);
            assert(mid.with_content(node, empty) =~~= mid);
        }
        match file.write_all(fs, data) {
            Ok(_) => {
                proof {
                    assert(fs@ == mid.with_content(node, data@));
                    match self.spec_resolve(before, path_components(path@)) {
                        Ok(loc) => {
                            assert(mid.with_content(node, data@) =~~= before.with_content(
                                node,
                                data@,
                            ));
                        },
                        Err(_) => {
                            assert(fs@.nodes.last().meta.inode == mid.nodes.last().meta.inode);
                        },
                    }
                }
                Ok(())
            },
            Err(e) => Err(e),
        }
    }

    /// Starts a listing of the directory that `path` names.
    pub fn read_dir(&self, fs: &Filesystem, path: &str) -> (r: VfsResult<ReadDir>)
        requires
            fs.wf(),
        ensures
            match r {
                Ok(listing) => self.spec_resolve(fs@, path_components(path@)) == Ok::<
                    Location,
                    VfsError,
                >(listing@.dir) && listing@ == ReadDirView::start(listing@.dir),
                Err(e) => self.spec_resolve(fs@, path_components(path@)) == Err::<
                    Location,
                    VfsError,
                >(e),
            },
    {
        match self.resolve(fs, path) {
            Ok(dir) => Ok(ReadDir { dir, buf: VecDeque::new(), offset: 0, ended: false }),
            Err(e) => Err(e),
        }
    }
}

/// The number of entries that a listing fetches at once.
pub const BUF_SIZE: usize = 128;

/// A listing of a directory that fetches the entries in batches.
pub struct ReadDir {
    dir: Location,
    buf: VecDeque<ReadDirEntry>,
    offset: u64,
    ended: bool,
}

/// A listing as a plain value.
#[verifier::ext_equal]
pub struct ReadDirView {
    /// The directory that is listed.
    pub dir: Location,
    /// The entries fetched and not yet handed out.
    pub buf: Seq<ReadDirEntryView>,
    /// Where the next batch begins.
    pub offset: u64,
    /// Whether the listing has come to its end.
    pub ended: bool,
}

impl ReadDirView {
    /// A listing of `dir` that has fetched nothing yet.
    pub open spec fn start(dir: Location) -> ReadDirView {
        ReadDirView { dir, buf: Seq::empty(), offset: 0, ended: false }
    }

    /// The batch that the listing fetches next.
    pub open spec fn batch(self, fs: FsView) -> VfsResult<Seq<ReadDirEntryView>> {
        if !fs.valid(self.dir) {
            Err(VfsError::NotFound)
        } else if !fs.is_dir(self.dir) {
            Err(VfsError::NotADirectory)
        } else {
            Ok(fs.dir_entries(self.dir, self.offset, BUF_SIZE))
        }
    }

    /// The entries in which the next call finds its result: what is
    /// buffered, or else the next batch.
    pub open spec fn pending(self, fs: FsView) -> VfsResult<Seq<ReadDirEntryView>> {
        if self.buf.len() > 0 {
            Ok(self.buf)
        } else {
            self.batch(fs)
        }
    }

    /// The listing after the next call.
    pub open spec fn advanced(self, fs: FsView) -> ReadDirView {
        if self.ended {
            self
        } else if self.buf.len() > 0 {
            ReadDirView { buf: self.buf.drop_first(), ..self }
        } else {
            match self.batch(fs) {
                Err(_) => self,
                Ok(batch) => if batch.len() == 0 {
                    ReadDirView { ended: true, ..self }
                } else {
                    ReadDirView { buf: batch.drop_first(), offset: batch.last().offset, ..self }
                },
            }
        }
    }
}

impl ReadDirView {
    /// The entries of the directory `dir` from the place `offset` on.
    pub open spec fn rest_of(fs: FsView, dir: Location, offset: u64) -> Seq<ReadDirEntryView> {
        let count = fs.entries[dir.index as int].children.len();
        let start = if offset <= count {
            offset as int
        } else {
            count as int
        };
        Seq::new((count - start) as nat, |i: int| fs.dir_entry(dir, start + i))
    }

    /// What the listing has yet to hand out: what is buffered, and then
    /// what the directory holds behind it.
    pub open spec fn remaining(self, fs: FsView) -> Seq<ReadDirEntryView> {
        if self.ended {
            Seq::empty()
        } else {
            self.buf + Self::rest_of(fs, self.dir, self.offset)
        }
    }

    /// Whether the next batch begins where the buffer ends.
    pub open spec fn in_step(self) -> bool {
        self.buf.len() > 0 ==> self.buf.last().offset == self.offset
    }
}

impl View for ReadDir {
    type V = ReadDirView;

    closed spec fn view(&self) -> ReadDirView {
        ReadDirView {
            dir: self.dir,
            buf: entry_views(self.buf@),
            offset: self.offset,
            ended: self.ended,
        }
    }
}

impl ReadDirView {
    /// What the next call hands out when the directory gave `fetched` and
    /// then ended as `outcome` says: the first entry, or else the error,
    /// or else the end.
    pub open spec fn handed_out(
        fetched: Seq<ReadDirEntryView>,
        outcome: VfsResult<()>,
    ) -> Option<VfsResult<ReadDirEntryView>> {
        if fetched.len() > 0 {
            Some(Ok(fetched[0]))
        } else {
            match outcome {
                Err(e) => Some(Err(e)),
                Ok(_) => None,
            }
        }
    }

    /// The listing after the directory gave `fetched` and then ended as
    /// `outcome` says.
    pub open spec fn refilled(self, fetched: Seq<ReadDirEntryView>, outcome: VfsResult<()>) -> ReadDirView {
        if fetched.len() > 0 {
            ReadDirView { buf: fetched.drop_first(), offset: fetched.last().offset, ..self }
        } else {
            match outcome {
                Err(_) => self,
                Ok(_) => ReadDirView { ended: true, ..self },
            }
        }
    }
}

/// Whether a result is what was to be handed out.
pub open spec fn hands_out(
    r: Option<VfsResult<ReadDirEntry>>,
    expected: Option<VfsResult<ReadDirEntryView>>,
) -> bool {
    match r {
        None => expected is None,
        Some(Err(e)) => expected == Some(Err::<ReadDirEntryView, VfsError>(e)),
        Some(Ok(entry)) => expected == Some(Ok::<ReadDirEntryView, VfsError>(entry@)),
    }
}

impl ReadDir {
    /// Takes what the directory gave for a batch: the entries `fetched`,
    /// and how the fetch ended. Hands out the first entry and keeps the
    /// others.
    ///
    /// An error counts only where no entry came with it: then it is handed
    /// out, and the listing stays as it was. With entries, the error is
    /// dropped; the directory will tell it again when it is asked for the
    /// next batch. No entry and no error end the listing.
    pub fn refill(&mut self, fetched: Vec<ReadDirEntry>, outcome: VfsResult<()>) -> (r: Option<
        VfsResult<ReadDirEntry>,
    >)
        requires
            !old(self)@.ended,
            old(self)@.buf.len() == 0,
        ensures
            final(self)@ == old(self)@.refilled(entry_views(fetched@), outcome),
            hands_out(r, ReadDirView::handed_out(entry_views(fetched@), outcome)),
    {
        let mut batch = fetched;
        if batch.len() == 0 {
            return match outcome {
                Err(e) => Some(Err(e)),
                Ok(_) => {
                    self.ended = true;
                    proof {
                        assert(self@ =~~= old(self)@.refilled(entry_views(fetched@), outcome));
                    }
                    None
                },
            };
        }
        self.offset = batch[batch.len() - 1].offset;
        proof {
            assert(self.buf@ =~= Seq::<ReadDirEntry>::empty());
        }
        while batch.len() > 0
            invariant
                batch@ == fetched@.subrange(0, batch@.len() as int),
                batch@.len() <= fetched@.len(),
                self.buf@ == fetched@.subrange(batch@.len() as int, fetched@.len() as int),
                self.dir == old(self).dir,
                self.ended == old(self).ended,
                fetched@.len() > 0,
                self.offset == fetched@.last().offset,
            decreases batch.len(),
        {
            match batch.pop() {
                Some(entry) => {
                    self.buf.push_front(entry);
                    proof {
                        assert(self.buf@ =~= fetched@.subrange(
                            batch@.len() as int,
                            fetched@.len() as int,
                        ));
                        assert(batch@ =~= fetched@.subrange(0, batch@.len() as int));
                    }
                },
                None => {},
            }
        }
        proof {
            assert(self.buf@ =~= fetched@);
        }
        match self.buf.pop_front() {
            Some(entry) => {
                proof {
                    assert(entry_views(self.buf@) =~= entry_views(fetched@).drop_first());
                    assert(self@ =~~= old(self)@.refilled(entry_views(fetched@), outcome));
                }
                Some(Ok(entry))
            },
            None => None,
        }
    }

    /// Hands out the next entry of the listing, `None` at its end.
    ///
    /// An empty buffer is filled with the next batch first. A batch
    /// without entries ends the listing for good. An error of the
    /// directory is handed out and leaves the listing as it was, so that
    /// the next call asks the directory again.
    pub fn next(&mut self, fs: &Filesystem) -> (r: Option<VfsResult<ReadDirEntry>>)
        requires
            fs.wf(),
        ensures
            final(self)@ == old(self)@.advanced(fs@),
            match r {
                None => old(self)@.ended || old(self)@.pending(fs@) == Ok::<
                    Seq<ReadDirEntryView>,
                    VfsError,
                >(Seq::empty()),
                Some(Err(e)) => !old(self)@.ended && old(self)@.pending(fs@) == Err::<
                    Seq<ReadDirEntryView>,
                    VfsError,
                >(e),
                Some(Ok(entry)) => {
                    &&& !old(self)@.ended
                    &&& old(self)@.pending(fs@) matches Ok(entries)
                    &&& entries.len() > 0
                    &&& entry@ == entries[0]
                },
            },
    {
        if self.ended {
            return None;
        }
        if self.buf.len() == 0 {
            proof {
                assert(entry_views(self.buf@) =~= Seq::<ReadDirEntryView>::empty());
            }
            match fs.read_dir(self.dir, self.offset, BUF_SIZE) {
                Ok(batch) => {
                    let ghost views = entry_views(batch@);
                    let r = self.refill(batch, Ok(()));
                    proof {
                        if views.len() == 0 {
                            assert(views =~= Seq::<ReadDirEntryView>::empty());
                        }
                    }
                    return r;
                },
                Err(e) => {
                    let none: Vec<ReadDirEntry> = Vec::new();
                    proof {
                        assert(entry_views(none@) =~= Seq::<ReadDirEntryView>::empty());
                    }
                    return self.refill(none, Err(e));
                },
            }
        }
        let ghost pending = self.buf@;
        match self.buf.pop_front() {
            Some(entry) => {
                proof {
                    assert(entry_views(self.buf@) =~= entry_views(pending).drop_first());
                    assert(self@ =~~= old(self)@.advanced(fs@));
                }
                Some(Ok(entry))
            },
            None => None,
        }
    }
}

} // verus!
