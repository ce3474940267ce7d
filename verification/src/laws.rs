//! What holds of the file system whatever is done with it.

use crate::context::{step, walk, FsContext, ReadDirView, BUF_SIZE};
use crate::error::{VfsError, VfsResult};
use crate::file::{seek_target, File, OpenOptions, OpenResult, SeekFrom};
use crate::model::{join_names, path_text};
use crate::path::{
    is_name, joined, lemma_joined_components, lemma_pieces_append, path_components, pieces,
    pieces_components, spec_dir_components, spec_file_name, ComponentView,
};
use crate::posix::{
    installs, lemma_first_free, lowest_free, slot, spec_flags_to_options, with_slot, FileLike,
    AT_FDCWD, O_EXCL,
};
use crate::types::Metadata;
use crate::model::{FsView, Location, written};
use vstd::prelude::*;

verus! {

/// The components that look the names up one after the other.
pub open spec fn name_components(names: Seq<Seq<char>>) -> Seq<ComponentView> {
    Seq::new(names.len(), |i: int| ComponentView::Normal(names[i]))
}

/// The components of the absolute path of `loc`: the root, and then the
/// names from the root down to `loc`.
pub open spec fn absolute_components(fs: FsView, loc: Location) -> Seq<ComponentView> {
    seq![ComponentView::RootDir] + name_components(fs.absolute_names(loc))
}

/// Looking the name of an entry up in the directory above it gives the
/// entry.
pub proof fn lemma_lookup_own_name(fs: FsView, loc: Location)
    requires
        fs.well_formed(),
        fs.valid(loc),
        fs.entries[loc.index as int].parent is Some,
    ensures
        fs.lookup(fs.parent(loc)->0, fs.entries[loc.index as int].name) == Ok::<
            Location,
            VfsError,
        >(loc),
{
    let p = fs.parent(loc)->0;
    fs.lemma_position(loc);
    fs.lemma_parent(loc);
    assert(fs.entry_ok(loc));
    assert(fs.entry_ok(p));
    fs.lemma_find_child_at(p, fs.position(loc), 0);
}

/// What a lookup finds exists.
pub proof fn lemma_lookup_valid(fs: FsView, dir: Location, name: Seq<char>)
    requires
        fs.well_formed(),
        fs.lookup(dir, name) is Ok,
    ensures
        fs.valid(fs.lookup(dir, name)->Ok_0),
{
    assert(fs.entry_ok(dir));
    if name == crate::model::dot() {
    } else if name == crate::model::dotdot() {
        if fs.parent(dir) is Some {
            fs.lemma_parent(dir);
        }
    } else {
        let stored = fs.stored_name(name);
        fs.lemma_find_from(dir, stored, 0);
        let found = fs.find_child(dir, stored)->0;
        let k = choose|k: int|
            0 <= k < fs.entries[dir.index as int].children.len()
                && #[trigger] fs.entries[dir.index as int].children[k] == found.index
                && fs.entries[found.index as int].name == stored;
        assert(fs.child_ok(dir, k));
    }
}

/// What a path resolves to exists.
pub proof fn lemma_resolve_valid(fs: FsView, context: FsContext, components: Seq<ComponentView>)
    requires
        fs.well_formed(),
        context.spec_resolve(fs, components) is Ok,
    ensures
        fs.valid(context.spec_resolve(fs, components)->Ok_0),
{
    let dir = context.spec_resolve_dir(fs, components)->Ok_0;
    if spec_file_name(components) is Some {
        lemma_lookup_valid(fs, dir, spec_file_name(components)->0);
    }
}

/// A walk through some components and one more is the walk through the
/// components, and then one step.
pub proof fn lemma_walk_push(
    fs: FsView,
    root: Location,
    cur: Location,
    components: Seq<ComponentView>,
    last: ComponentView,
)
    ensures
        walk(fs, root, cur, components.push(last)) == match walk(fs, root, cur, components) {
            Ok(reached) => step(fs, root, reached, last),
            Err(e) => Err(e),
        },
    decreases components.len(),
{
    let all = components.push(last);
    if components.len() == 0 {
        assert(all.drop_first() =~= Seq::<ComponentView>::empty());
        match step(fs, root, cur, last) {
            Ok(next) => {
                assert(walk(fs, root, next, all.drop_first()) == Ok::<Location, VfsError>(next));
            },
            Err(_) => {},
        }
    } else {
        assert(all[0] == components[0]);
        assert(all.drop_first() =~= components.drop_first().push(last));
        match step(fs, root, cur, components[0]) {
            Ok(next) => {
                lemma_walk_push(fs, root, next, components.drop_first(), last);
            },
            Err(_) => {},
        }
    }
}

/// The names from the root down to an entry are those down to the
/// directory above it, and then its own.
pub proof fn lemma_absolute_names(fs: FsView, loc: Location)
    requires
        fs.well_formed(),
        fs.valid(loc),
    ensures
        match fs.parent(loc) {
            Some(p) => fs.absolute_names(loc) == fs.absolute_names(p).push(
                fs.entries[loc.index as int].name,
            ),
            None => fs.absolute_names(loc) == Seq::<Seq<char>>::empty() && loc == FsView::root(),
        },
{
    assert(fs.entry_ok(loc));
    match fs.parent(loc) {
        Some(p) => {
            fs.lemma_parent(loc);
            let name = fs.entries[loc.index as int].name;
            assert(fs.names_up(loc) == seq![name] + fs.names_up(p));
            assert((seq![name] + fs.names_up(p)).reverse() =~= fs.names_up(p).reverse().push(name));
        },
        None => {
            assert(fs.names_up(loc) =~= Seq::<Seq<char>>::empty());
            assert(fs.names_up(loc).reverse() =~= Seq::<Seq<char>>::empty());
        },
    }
}

/// The walk from the root through the names down to an entry arrives at
/// the entry.
pub proof fn lemma_walk_absolute_names(fs: FsView, loc: Location)
    requires
        fs.well_formed(),
        fs.valid(loc),
    ensures
        walk(fs, FsView::root(), FsView::root(), name_components(fs.absolute_names(loc))) == Ok::<
            Location,
            VfsError,
        >(loc),
    decreases fs.rank()[loc.index as int],
{
    lemma_absolute_names(fs, loc);
    match fs.parent(loc) {
        Some(p) => {
            fs.lemma_parent(loc);
            let name = fs.entries[loc.index as int].name;
            lemma_walk_absolute_names(fs, p);
            assert(name_components(fs.absolute_names(p).push(name)) =~= name_components(
                fs.absolute_names(p),
            ).push(ComponentView::Normal(name)));
            lemma_walk_push(
                fs,
                FsView::root(),
                FsView::root(),
                name_components(fs.absolute_names(p)),
                ComponentView::Normal(name),
            );
            lemma_lookup_own_name(fs, loc);
        },
        None => {
            assert(name_components(fs.absolute_names(loc)) =~= Seq::<ComponentView>::empty());
        },
    }
}

/// The absolute path of an entry resolves to the entry, from whatever
/// current directory, in a context whose root is the root of the file
/// system.
pub proof fn lemma_absolute_components_resolve(fs: FsView, context: FsContext, loc: Location)
    requires
        fs.well_formed(),
        fs.valid(loc),
        context.root_dir == FsView::root(),
    ensures
        context.spec_resolve(fs, absolute_components(fs, loc)) == Ok::<Location, VfsError>(loc),
{
    let root = FsView::root();
    let all = absolute_components(fs, loc);
    lemma_absolute_names(fs, loc);
    lemma_walk_absolute_names(fs, loc);
    match fs.parent(loc) {
        Some(p) => {
            fs.lemma_parent(loc);
            lemma_absolute_names(fs, p);
            lemma_walk_absolute_names(fs, p);
            lemma_lookup_own_name(fs, loc);
            let name = fs.entries[loc.index as int].name;
            let above = name_components(fs.absolute_names(p));
            assert(all.last() == ComponentView::Normal(name));
            assert(all.drop_last() =~= seq![ComponentView::RootDir] + above);
            let dirs = spec_dir_components(all);
            assert(dirs[0] == ComponentView::RootDir);
            assert(dirs.drop_first() =~= above);
            assert(step(fs, root, context.current_dir, dirs[0]) == Ok::<Location, VfsError>(root));
        },
        None => {
            assert(all =~= seq![ComponentView::RootDir]);
            assert(all.drop_first() =~= Seq::<ComponentView>::empty());
            assert(step(fs, root, context.current_dir, all[0]) == Ok::<Location, VfsError>(root));
            assert(walk(fs, root, root, all.drop_first()) == Ok::<Location, VfsError>(root));
        },
    }
}

/// The path that a resolved path can be named by resolves to the same
/// entry: resolving a path and then the absolute path of the entry found
/// gives that entry again.
pub proof fn lemma_resolve_absolute_path(
    fs: FsView,
    context: FsContext,
    components: Seq<ComponentView>,
)
    requires
        fs.well_formed(),
        context.root_dir == FsView::root(),
        context.spec_resolve(fs, components) is Ok,
    ensures
        context.spec_resolve(
            fs,
            absolute_components(fs, context.spec_resolve(fs, components)->Ok_0),
        ) == context.spec_resolve(fs, components),
{
    lemma_resolve_valid(fs, context, components);
    lemma_absolute_components_resolve(fs, context, context.spec_resolve(fs, components)->Ok_0);
}

/// The path `/` resolves to the root of the context, where that is a
/// directory.
pub proof fn lemma_root_resolves(fs: FsView, context: FsContext)
    requires
        fs.is_dir(context.root_dir),
    ensures
        context.spec_resolve(fs, seq![ComponentView::RootDir]) == Ok::<Location, VfsError>(
            context.root_dir,
        ),
{
    let all = seq![ComponentView::RootDir];
    assert(all.drop_first() =~= Seq::<ComponentView>::empty());
    assert(step(fs, context.root_dir, context.current_dir, all[0]) == Ok::<Location, VfsError>(
        context.root_dir,
    ));
    assert(walk(fs, context.root_dir, context.root_dir, all.drop_first()) == Ok::<
        Location,
        VfsError,
    >(context.root_dir));
}

/// After an entry was made in a directory, looking its name up there
/// gives the new entry, and the entry goes by the stored form of the
/// name.
pub proof fn lemma_create_then_lookup(fs: FsView, dir: Location, name: Seq<char>, meta: Metadata)
    requires
        fs.well_formed(),
        fs.create_error(dir, name, meta.node_type) is None,
        meta.node_type != crate::types::NodeType::Directory ==> meta.size == 0,
        meta.block_size > 0,
        meta.times_ok(),
        fs.kind == crate::model::FsKind::Fat ==> fs.inode_is_free(meta.inode),
        fs.entries.len() < usize::MAX,
        fs.nodes.len() < usize::MAX,
    ensures
        fs.created(dir, name, meta).lookup(dir, name) == Ok::<Location, VfsError>(
            Location { index: fs.entries.len() as usize },
        ),
        fs.created(dir, name, meta).entries[fs.entries.len() as int].name == fs.stored_name(name),
{
    let after = fs.created(dir, name, meta);
    let new = Location { index: fs.entries.len() as usize };
    fs.lemma_created_well_formed(dir, name, meta);
    assert(after.entry_ok(dir));
    let last = fs.entries[dir.index as int].children.len() as int;
    assert(after.entries[dir.index as int].children[last] == new.index);
    after.lemma_find_child_at(dir, last, 0);
    assert(after.node_of(dir) == fs.node_of(dir)) by {
        assert(fs.entry_ok(dir));
    }
}

/// After an entry was removed from a directory, looking its name up
/// there fails with `NotFound`.
pub proof fn lemma_unlink_then_lookup(fs: FsView, dir: Location, name: Seq<char>, is_dir: bool)
    requires
        fs.well_formed(),
        fs.unlink_error(dir, name, is_dir) is None,
    ensures
        fs.unlinked(dir, name).lookup(dir, name) == Err::<Location, VfsError>(VfsError::NotFound),
{
    let stored = fs.stored_name(name);
    let gone = fs.find_child(dir, stored)->0;
    let after = fs.unlinked(dir, name);
    fs.lemma_find_from(dir, stored, 0);
    assert(fs.entry_ok(dir));
    let k = choose|k: int|
        0 <= k < fs.entries[dir.index as int].children.len()
            && #[trigger] fs.entries[dir.index as int].children[k] == gone.index
            && fs.entries[gone.index as int].name == stored;
    assert(fs.child_ok(dir, k));
    assert(fs.entry_ok(gone));
    fs.lemma_position(gone);
    fs.lemma_parent(gone);
    fs.lemma_without_entry_well_formed(gone);
    let was = fs.entries[dir.index as int].children;
    let now = after.entries[dir.index as int].children;
    assert(now == was.remove(k));
    after.lemma_find_from(dir, stored, 0);
    if after.find_child(dir, stored) is Some {
        let found = after.find_child(dir, stored)->0;
        let j = choose|j: int|
            0 <= j < now.len() && #[trigger] now[j] == found.index
                && after.entries[found.index as int].name == stored;
        let j0 = if j < k {
            j
        } else {
            j + 1
        };
        assert(now[j] == was[j0]);
        assert(fs.child_ok(dir, j0));
        fs.lemma_children_distinct(dir, j0, k);
        if j0 < k {
            assert(fs.entries[was[j0] as int].name != fs.entries[was[k] as int].name);
        } else {
            assert(fs.entries[was[k] as int].name != fs.entries[was[j0] as int].name);
        }
        assert(false);
    }
    assert(after.node_of(dir).meta.node_type == fs.node_of(dir).meta.node_type);
}

/// A rename from a directory into a directory below the entry that is to
/// move, or into that entry itself, is refused with `InvalidInput`.
pub proof fn lemma_rename_into_descendant(
    fs: FsView,
    src_dir: Location,
    src_name: Seq<char>,
    dst_dir: Location,
    dst_name: Seq<char>,
)
    requires
        fs.well_formed(),
        fs.valid(src_dir),
        fs.valid(dst_dir),
        fs.find_child(src_dir, fs.stored_name(src_name)) is Some,
        fs.is_ancestor(fs.find_child(src_dir, fs.stored_name(src_name))->0, dst_dir),
    ensures
        fs.rename_error(src_dir, src_name, dst_dir, dst_name) == Some(VfsError::InvalidInput),
{
    let stored = fs.stored_name(src_name);
    let src = fs.find_child(src_dir, stored)->0;
    fs.lemma_find_from(src_dir, stored, 0);
    assert(fs.entry_ok(src_dir));
    let k = choose|k: int|
        0 <= k < fs.entries[src_dir.index as int].children.len()
            && #[trigger] fs.entries[src_dir.index as int].children[k] == src.index
            && fs.entries[src.index as int].name == stored;
    assert(fs.child_ok(src_dir, k));
    assert(fs.entry_ok(src));
    assert(fs.name_error(src_name) is None) by {
        assert(fs.stored_name(crate::model::dot()) =~= crate::model::dot());
        assert(fs.stored_name(crate::model::dotdot()) =~= crate::model::dotdot());
    }
    fs.lemma_parent_of_ancestor(src, dst_dir);
}

/// A rename of a name that its directory does not hold fails with
/// `NotFound`, wherever the entry was to go and under whatever name.
pub proof fn lemma_rename_of_nothing(
    fs: FsView,
    src_dir: Location,
    src_name: Seq<char>,
    dst_dir: Location,
    dst_name: Seq<char>,
)
    requires
        fs.valid(src_dir),
        fs.valid(dst_dir),
        fs.lookup(src_dir, src_name) == Err::<Location, VfsError>(VfsError::NotFound),
        src_name != crate::model::dot(),
        src_name != crate::model::dotdot(),
    ensures
        fs.rename_error(src_dir, src_name, dst_dir, dst_name) == Some(VfsError::NotFound),
{
}

/// Where an entry can move into a directory under a name that is free
/// there, `fresh_name`, it can also take the place of an entry of that
/// directory, whatever the two are: unless that entry is a directory with
/// entries, which gives `DirectoryNotEmpty`.
pub proof fn lemma_rename_onto_an_entry(
    fs: FsView,
    src_dir: Location,
    src_name: Seq<char>,
    dst_dir: Location,
    dst_name: Seq<char>,
    fresh_name: Seq<char>,
)
    requires
        fs.well_formed(),
        fs.rename_error(src_dir, src_name, dst_dir, fresh_name) is None,
        fs.find_child(dst_dir, fs.stored_name(fresh_name)) is None,
        fs.find_child(dst_dir, fs.stored_name(dst_name)) is Some,
        fs.name_error(dst_name) is None,
        FsView::valid_name(dst_name),
    ensures
        ({
            let dst = fs.find_child(dst_dir, fs.stored_name(dst_name))->0;
            fs.rename_error(src_dir, src_name, dst_dir, dst_name) == if fs.is_dir(dst)
                && fs.entries[dst.index as int].children.len() > 0 {
                Some(VfsError::DirectoryNotEmpty)
            } else {
                None
            }
        }),
{
}

/// A rename onto another entry removes that entry: it exists no more
/// afterwards, and the entry that moved still does.
pub proof fn lemma_rename_replaces(
    fs: FsView,
    src_dir: Location,
    src_name: Seq<char>,
    dst_dir: Location,
    dst_name: Seq<char>,
)
    requires
        fs.well_formed(),
        fs.rename_error(src_dir, src_name, dst_dir, dst_name) is None,
        fs.find_child(dst_dir, fs.stored_name(dst_name)) is Some,
        fs.find_child(dst_dir, fs.stored_name(dst_name)) != fs.find_child(
            src_dir,
            fs.stored_name(src_name),
        ),
    ensures
        ({
            let after = fs.renamed(src_dir, src_name, dst_dir, dst_name);
            let src = fs.find_child(src_dir, fs.stored_name(src_name))->0;
            let dst = fs.find_child(dst_dir, fs.stored_name(dst_name))->0;
            &&& !after.valid(dst)
            &&& after.valid(src)
            &&& after.node_of(src).meta.node_type == fs.node_of(src).meta.node_type
            &&& after.lookup(dst_dir, dst_name) == Ok::<Location, VfsError>(src)
        }),
{
    let src = fs.find_child(src_dir, fs.stored_name(src_name))->0;
    let dst = fs.find_child(dst_dir, fs.stored_name(dst_name))->0;
    fs.lemma_renamed_well_formed(src_dir, src_name, dst_dir, dst_name);
    lemma_rename_then_lookup(fs, src_dir, src_name, dst_dir, dst_name);
    fs.lemma_find_from(src_dir, fs.stored_name(src_name), 0);
    fs.lemma_find_from(dst_dir, fs.stored_name(dst_name), 0);
    let after = fs.renamed(src_dir, src_name, dst_dir, dst_name);
    let mid = fs.without_entry(dst);
    assert(after == mid.moved(src, dst_dir, fs.stored_name(dst_name)));
    assert(fs.entry_ok(src_dir));
    assert(fs.entry_ok(dst_dir));
    let ks = choose|k: int|
        0 <= k < fs.entries[src_dir.index as int].children.len()
            && #[trigger] fs.entries[src_dir.index as int].children[k] == src.index
            && fs.entries[src.index as int].name == fs.stored_name(src_name);
    assert(fs.child_ok(src_dir, ks));
    let kd = choose|k: int|
        0 <= k < fs.entries[dst_dir.index as int].children.len()
            && #[trigger] fs.entries[dst_dir.index as int].children[k] == dst.index
            && fs.entries[dst.index as int].name == fs.stored_name(dst_name);
    assert(fs.child_ok(dst_dir, kd));
    assert(fs.entry_ok(dst));
    assert(fs.entry_ok(src));
    fs.lemma_parent(dst);
    assert(dst != dst_dir);
    assert(dst != src_dir) by {
        if dst == src_dir {
            assert(fs.entries[dst.index as int].children.len() > 0);
        }
    }
}

/// After a rename, looking the new name up gives the entry that moved,
/// and looking the old name up fails with `NotFound`, unless both names
/// are one: then the rename changed nothing.
pub proof fn lemma_rename_then_lookup(
    fs: FsView,
    src_dir: Location,
    src_name: Seq<char>,
    dst_dir: Location,
    dst_name: Seq<char>,
)
    requires
        fs.well_formed(),
        fs.rename_error(src_dir, src_name, dst_dir, dst_name) is None,
    ensures
        ({
            let after = fs.renamed(src_dir, src_name, dst_dir, dst_name);
            let src = fs.find_child(src_dir, fs.stored_name(src_name))->0;
            let dst = fs.find_child(dst_dir, fs.stored_name(dst_name));
            if dst == Some(src) {
                after == fs && after.lookup(dst_dir, dst_name) == Ok::<Location, VfsError>(src)
            } else {
                &&& after.lookup(dst_dir, dst_name) == Ok::<Location, VfsError>(src)
                &&& after.lookup(src_dir, src_name) == Err::<Location, VfsError>(
                    VfsError::NotFound,
                )
            }
        }),
{
    let stored_src = fs.stored_name(src_name);
    let stored = fs.stored_name(dst_name);
    let src = fs.find_child(src_dir, stored_src)->0;
    let after = fs.renamed(src_dir, src_name, dst_dir, dst_name);
    fs.lemma_renamed_well_formed(src_dir, src_name, dst_dir, dst_name);
    if fs.renames(src_dir, src_name, dst_dir, dst_name) {
        let from = fs.renamed_from(src_dir, src_name, dst_dir, dst_name);
        from.lemma_moved_then_find(src, dst_dir, stored);
        fs.lemma_stored_name_valid(dst_name);
    }
}

/// What is written into a file is what is read from the place of the
/// write, once the cursor is back at the start; and it is all that is
/// read where the write began at the start and reached the end.
pub proof fn lemma_write_then_read(fs: FsView, file: File, data: Seq<u8>)
    requires
        fs.well_formed(),
        file.write_error(fs, data.len()) is None,
    ensures
        ({
            let at = file.write_offset(fs) as int;
            let after = fs.with_content(file.node, written(fs.content(file.node), at, data));
            let read = after.read_at(file.node, 0, usize::MAX);
            &&& seek_target(
                (at + data.len()) as u64,
                after.nodes[file.node.index as int].meta.size,
                SeekFrom::Start(0),
            ) == 0
            &&& read == after.content(file.node)
            &&& read.subrange(at, at + data.len()) == data
            &&& at == 0 && fs.content(file.node).len() <= data.len() ==> read == data
        }),
{
    let at = file.write_offset(fs) as int;
    let content = written(fs.content(file.node), at, data);
    let after = fs.with_content(file.node, content);
    let read = after.read_at(file.node, 0, usize::MAX);
    assert(fs.node_ok(file.node.index as int));
    assert(content.len() <= usize::MAX);
    assert(read =~= content);
    assert(read.subrange(at, at + data.len()) =~= data);
    if at == 0 && fs.content(file.node).len() <= data.len() {
        assert(read =~= data);
    }
}

/// Writes to two files do not meet: each leaves the other file as it
/// was, content and metadata, and in whichever order the two files get
/// their new contents, the file system is the same afterwards.
pub proof fn lemma_writes_to_distinct_files(
    fs: FsView,
    a: crate::model::NodeId,
    b: crate::model::NodeId,
    x: Seq<u8>,
    y: Seq<u8>,
)
    requires
        a.index != b.index,
        a.index < fs.nodes.len(),
        b.index < fs.nodes.len(),
    ensures
        fs.with_content(a, x).nodes[b.index as int] == fs.nodes[b.index as int],
        fs.with_content(b, y).nodes[a.index as int] == fs.nodes[a.index as int],
        fs.with_content(a, x).entries == fs.entries,
        fs.with_content(a, x).with_content(b, y) == fs.with_content(b, y).with_content(a, x),
{
    let one = fs.with_content(a, x).with_content(b, y);
    let other = fs.with_content(b, y).with_content(a, x);
    assert(one.nodes =~= other.nodes);
}

/// An open that asks for a new file fails with `AlreadyExists` where the
/// path names something, and changes nothing.
pub proof fn lemma_exclusive_open(
    options: OpenOptions,
    context: FsContext,
    before: FsView,
    components: Seq<ComponentView>,
    after: FsView,
    r: VfsResult<OpenResult>,
)
    requires
        options.create_new,
        context.spec_resolve(before, components) is Ok,
        options.opens(context, before, components, after, r),
    ensures
        r == Err::<OpenResult, VfsError>(VfsError::AlreadyExists),
        after == before,
{
}

/// The system call for opening, with the flag for a new file, returns
/// `-EEXIST` where the path names something, and opens no descriptor.
pub proof fn lemma_exclusive_sys_open(
    flags: i32,
    context: FsContext,
    before: FsView,
    components: Seq<ComponentView>,
    after: FsView,
    opened: VfsResult<OpenResult>,
    fds_before: Seq<Option<FileLike>>,
    fds_after: Seq<Option<FileLike>>,
    r: int,
)
    requires
        (flags as u32) & O_EXCL != 0,
        context.spec_resolve(before, components) is Ok,
        spec_flags_to_options(flags).opens(context, before, components, after, opened),
        installs(opened, fds_before, fds_after, r),
    ensures
        r == -crate::error::EEXIST,
        after == before,
        fds_after == fds_before,
{
}

/// The descriptor that stands for the current directory is never open.
pub proof fn lemma_at_fdcwd_is_not_open(fds: Seq<Option<FileLike>>)
    ensures
        slot(fds, AT_FDCWD as int) is None,
{
}

/// A listing of a directory that stays as it is hands out, call by call,
/// what it has yet to show, in order, and ends when nothing is left.
pub proof fn lemma_listing_advances(listing: ReadDirView, fs: FsView)
    requires
        fs.well_formed(),
        fs.is_dir(listing.dir),
        !listing.ended,
        listing.in_step(),
    ensures
        listing.pending(fs) is Ok,
        listing.remaining(fs).len() == 0 ==> listing.pending(fs)->Ok_0.len() == 0
            && listing.advanced(fs).ended,
        listing.remaining(fs).len() > 0 ==> {
            &&& listing.pending(fs)->Ok_0.len() > 0
            &&& listing.pending(fs)->Ok_0[0] == listing.remaining(fs)[0]
            &&& !listing.advanced(fs).ended
            &&& listing.advanced(fs).in_step()
            &&& listing.advanced(fs).remaining(fs) == listing.remaining(fs).drop_first()
        },
{
    let dir = listing.dir;
    let after = listing.advanced(fs);
    let rest = ReadDirView::rest_of(fs, dir, listing.offset);
    fs.lemma_children_bounded(dir);
    if listing.buf.len() > 0 {
        assert(after.buf + rest =~= (listing.buf + rest).drop_first());
    } else {
        let count = fs.entries[dir.index as int].children.len();
        let start = if listing.offset <= count {
            listing.offset as int
        } else {
            count as int
        };
        let batch = fs.dir_entries(dir, listing.offset, BUF_SIZE);
        assert(listing.remaining(fs) =~= rest);
        if rest.len() > 0 {
            let end = start + batch.len();
            assert(batch.last() == fs.dir_entry(dir, end - 1));
            assert(after.offset == end);
            assert(after.buf + ReadDirView::rest_of(fs, dir, after.offset) =~= rest.drop_first());
        }
    }
}

/// A descriptor that was just opened stands for what it was opened for,
/// it was not open before, and every lower descriptor was open.
pub proof fn lemma_add_then_get(fds: Seq<Option<FileLike>>, file: FileLike)
    ensures
        slot(with_slot(fds, lowest_free(fds), file), lowest_free(fds)) == Some(file),
        slot(fds, lowest_free(fds)) is None,
        forall|fd: int| 0 <= fd < lowest_free(fds) ==> slot(fds, fd) is Some,
{
    lemma_first_free(fds, 0);
}

/// Every entry but the root goes by a name that is not empty, has neither
/// `/` nor NUL in it, and is neither `.` nor `..`; and every node has
/// blocks of some size and timestamps with less than a second of
/// nanoseconds.
pub proof fn lemma_names_and_blocks(fs: FsView, loc: Location)
    requires
        fs.well_formed(),
        fs.valid(loc),
    ensures
        loc != FsView::root() ==> FsView::valid_name(fs.entries[loc.index as int].name),
        fs.node_of(loc).meta.block_size > 0,
        fs.node_of(loc).meta.times_ok(),
{
    assert(fs.entry_ok(loc));
    assert(fs.node_ok(fs.entries[loc.index as int].node as int));
}

/// Whether every one of `names` can be the name of an entry.
pub open spec fn all_valid(names: Seq<Seq<char>>) -> bool {
    forall|i: int| 0 <= i < names.len() ==> FsView::valid_name(#[trigger] names[i])
}

/// The text that goes through some names falls into an empty piece and
/// the names, and does not end in a slash.
pub proof fn lemma_join_names_pieces(names: Seq<Seq<char>>)
    requires
        names.len() > 0,
        all_valid(names),
    ensures
        pieces(join_names(names)) == seq![Seq::<char>::empty()] + names,
        join_names(names).len() > 0,
        join_names(names).last() != '/',
    decreases names.len(),
{
    let init = names.drop_last();
    let last = names.last();
    let before = join_names(init);
    let text = join_names(names);
    assert(FsView::valid_name(names[names.len() - 1]));
    assert(text == before + seq!['/'] + last);
    assert(text.last() == last.last());
    assert(last.contains(last.last()));
    if init.len() > 0 {
        assert(all_valid(init)) by {
            assert forall|i: int| 0 <= i < init.len() implies FsView::valid_name(
                #[trigger] init[i],
            ) by {
                assert(init[i] == names[i]);
            }
        }
        lemma_join_names_pieces(init);
        lemma_pieces_append(before, last);
        assert(seq![Seq::<char>::empty()] + init + seq![last] =~= seq![Seq::<char>::empty()]
            + names);
    } else {
        assert(before =~= Seq::<char>::empty());
        lemma_pieces_append(before, last);
        assert(seq![Seq::<char>::empty()] + seq![last] =~= seq![Seq::<char>::empty()] + names);
    }
}

/// Names that can be names of entries are read as names, one component
/// each.
pub proof fn lemma_names_components(names: Seq<Seq<char>>)
    requires
        all_valid(names),
    ensures
        pieces_components(names, false) == name_components(names),
    decreases names.len(),
{
    if names.len() > 0 {
        let rest = names.drop_first();
        assert(FsView::valid_name(names[0]));
        assert(all_valid(rest)) by {
            assert forall|i: int| 0 <= i < rest.len() implies FsView::valid_name(
                #[trigger] rest[i],
            ) by {
                assert(rest[i] == names[i + 1]);
            }
        }
        lemma_names_components(rest);
        assert(seq![ComponentView::Normal(names[0])] + name_components(rest) =~= name_components(
            names,
        ));
    } else {
        assert(name_components(names) =~= Seq::<ComponentView>::empty());
    }
}

/// The text of the absolute path through some names falls into the root
/// and the names.
pub proof fn lemma_path_text_components(names: Seq<Seq<char>>)
    requires
        all_valid(names),
    ensures
        path_components(path_text(names)) == seq![ComponentView::RootDir] + name_components(names),
{
    let none = Seq::<char>::empty();
    if names.len() == 0 {
        let text = seq!['/'];
        assert(text.subrange(0, 0) =~= none);
        assert(text.subrange(1, 1) =~= none);
        assert(pieces(none) =~= Seq::<Seq<char>>::empty());
        assert(pieces(text) == seq![text.subrange(0, 0)] + pieces(text.subrange(1, 1)));
        let found = seq![none];
        assert(pieces(text) =~= found);
        assert(found.drop_first() =~= Seq::<Seq<char>>::empty());
        assert(pieces_components(found.drop_first(), false) =~= Seq::<ComponentView>::empty());
        assert(name_components(names) =~= Seq::<ComponentView>::empty());
        assert(pieces_components(found, true) =~= seq![ComponentView::RootDir]);
    } else {
        lemma_join_names_pieces(names);
        lemma_names_components(names);
        let found = seq![none] + names;
        assert(found.drop_first() =~= names);
        assert(found[0] == none);
    }
}

/// The names from the root down to an entry can all be names of entries.
pub proof fn lemma_absolute_names_valid(fs: FsView, loc: Location)
    requires
        fs.well_formed(),
        fs.valid(loc),
    ensures
        all_valid(fs.absolute_names(loc)),
    decreases fs.rank()[loc.index as int],
{
    lemma_absolute_names(fs, loc);
    match fs.parent(loc) {
        Some(p) => {
            fs.lemma_parent(loc);
            lemma_absolute_names_valid(fs, p);
            assert(fs.entry_ok(loc));
            let above = fs.absolute_names(p);
            let all = fs.absolute_names(loc);
            assert forall|i: int| 0 <= i < all.len() implies FsView::valid_name(
                #[trigger] all[i],
            ) by {
                if i < above.len() {
                    assert(all[i] == above[i]);
                }
            }
        },
        None => {},
    }
}

/// The text of the absolute path of an entry resolves to the entry, from
/// whatever current directory, in a context whose root is the root of
/// the file system.
pub proof fn lemma_absolute_path_text_resolves(fs: FsView, context: FsContext, loc: Location)
    requires
        fs.well_formed(),
        fs.valid(loc),
        context.root_dir == FsView::root(),
    ensures
        context.spec_resolve(fs, path_components(path_text(fs.absolute_names(loc)))) == Ok::<
            Location,
            VfsError,
        >(loc),
{
    lemma_absolute_names_valid(fs, loc);
    lemma_path_text_components(fs.absolute_names(loc));
    lemma_absolute_components_resolve(fs, context, loc);
}

/// What the text of a path resolves to has an absolute path whose text
/// resolves to it again.
pub proof fn lemma_resolve_absolute_path_text(fs: FsView, context: FsContext, path: Seq<char>)
    requires
        fs.well_formed(),
        context.root_dir == FsView::root(),
        context.spec_resolve(fs, path_components(path)) is Ok,
    ensures
        context.spec_resolve(
            fs,
            path_components(
                path_text(
                    fs.absolute_names(context.spec_resolve(fs, path_components(path))->Ok_0),
                ),
            ),
        ) == context.spec_resolve(fs, path_components(path)),
{
    lemma_resolve_valid(fs, context, path_components(path));
    lemma_absolute_path_text_resolves(
        fs,
        context,
        context.spec_resolve(fs, path_components(path))->Ok_0,
    );
}

/// What a lookup found before an entry was made, it finds afterwards.
pub proof fn lemma_lookup_after_create(
    fs: FsView,
    dir: Location,
    name: Seq<char>,
    meta: Metadata,
    cur: Location,
    wanted: Seq<char>,
)
    requires
        fs.well_formed(),
        fs.create_error(dir, name, meta.node_type) is None,
        meta.node_type != crate::types::NodeType::Directory ==> meta.size == 0,
        meta.block_size > 0,
        meta.times_ok(),
        fs.kind == crate::model::FsKind::Fat ==> fs.inode_is_free(meta.inode),
        fs.entries.len() < usize::MAX,
        fs.nodes.len() < usize::MAX,
        fs.lookup(cur, wanted) is Ok,
    ensures
        fs.created(dir, name, meta).lookup(cur, wanted) == fs.lookup(cur, wanted),
{
    let after = fs.created(dir, name, meta);
    fs.lemma_created_well_formed(dir, name, meta);
    assert(fs.entry_ok(cur));
    assert(fs.entry_ok(dir));
    assert(after.valid(cur));
    assert(after.entry_ok(cur));
    assert(after.entries[cur.index as int].parent == fs.entries[cur.index as int].parent);
    if wanted != crate::model::dot() && wanted != crate::model::dotdot() {
        assert(after.node_of(cur) == fs.node_of(cur));
        let stored = fs.stored_name(wanted);
        let found = fs.find_child(cur, stored)->0;
        fs.lemma_find_from(cur, stored, 0);
        let k = choose|k: int|
            0 <= k < fs.entries[cur.index as int].children.len()
                && #[trigger] fs.entries[cur.index as int].children[k] == found.index
                && fs.entries[found.index as int].name == stored;
        assert(fs.child_ok(cur, k));
        assert(after.entries[cur.index as int].children[k] == found.index);
        assert(after.entries[found.index as int].name == stored);
        after.lemma_find_child_at(cur, k, 0);
    }
}

/// A walk from a root and a start that exist, which arrived before an
/// entry was made, arrives at the same place afterwards.
pub proof fn lemma_walk_after_create(
    fs: FsView,
    dir: Location,
    name: Seq<char>,
    meta: Metadata,
    root: Location,
    cur: Location,
    components: Seq<ComponentView>,
)
    requires
        fs.well_formed(),
        fs.create_error(dir, name, meta.node_type) is None,
        meta.node_type != crate::types::NodeType::Directory ==> meta.size == 0,
        meta.block_size > 0,
        meta.times_ok(),
        fs.kind == crate::model::FsKind::Fat ==> fs.inode_is_free(meta.inode),
        fs.entries.len() < usize::MAX,
        fs.nodes.len() < usize::MAX,
        fs.valid(root),
        fs.valid(cur),
        walk(fs, root, cur, components) is Ok,
    ensures
        walk(fs.created(dir, name, meta), root, cur, components) == walk(
            fs,
            root,
            cur,
            components,
        ),
    decreases components.len(),
{
    let after = fs.created(dir, name, meta);
    if components.len() > 0 {
        let next = step(fs, root, cur, components[0])->Ok_0;
        assert(fs.entry_ok(cur));
        assert(fs.entry_ok(dir));
        match components[0] {
            ComponentView::Normal(wanted) => {
                lemma_lookup_after_create(fs, dir, name, meta, cur, wanted);
                lemma_lookup_valid(fs, cur, wanted);
            },
            ComponentView::ParentDir => {
                assert(after.entries[cur.index as int].parent == fs.entries[cur.index
                    as int].parent);
                if fs.parent(cur) is Some {
                    fs.lemma_parent(cur);
                }
            },
            _ => {},
        }
        assert(step(after, root, cur, components[0]) == step(fs, root, cur, components[0]));
        lemma_walk_after_create(fs, dir, name, meta, root, next, components.drop_first());
    }
}

/// After an entry was made in the directory at which a walk arrives, the
/// walk with the new name behind it arrives at the new entry, from a
/// root and a start that exist. The new entry goes
/// by the stored form of the name: on ext4 letter for letter as it was
/// given.
pub proof fn lemma_create_then_walk(
    fs: FsView,
    root: Location,
    cur: Location,
    components: Seq<ComponentView>,
    name: Seq<char>,
    meta: Metadata,
)
    requires
        fs.well_formed(),
        fs.valid(root),
        fs.valid(cur),
        walk(fs, root, cur, components) is Ok,
        fs.create_error(walk(fs, root, cur, components)->Ok_0, name, meta.node_type) is None,
        meta.node_type != crate::types::NodeType::Directory ==> meta.size == 0,
        meta.block_size > 0,
        meta.times_ok(),
        fs.kind == crate::model::FsKind::Fat ==> fs.inode_is_free(meta.inode),
        fs.entries.len() < usize::MAX,
        fs.nodes.len() < usize::MAX,
    ensures
        ({
            let dir = walk(fs, root, cur, components)->Ok_0;
            let after = fs.created(dir, name, meta);
            let new = Location { index: fs.entries.len() as usize };
            &&& walk(after, root, cur, components.push(ComponentView::Normal(name))) == Ok::<
                Location,
                VfsError,
            >(new)
            &&& after.entries[new.index as int].name == fs.stored_name(name)
            &&& fs.kind == crate::model::FsKind::Ext4 ==> after.entries[new.index as int].name
                == name
        }),
{
    let dir = walk(fs, root, cur, components)->Ok_0;
    let after = fs.created(dir, name, meta);
    lemma_walk_after_create(fs, dir, name, meta, root, cur, components);
    lemma_walk_push(after, root, cur, components, ComponentView::Normal(name));
    lemma_create_then_lookup(fs, dir, name, meta);
}

/// What a path resolves to is where the walk through all its components
/// arrives.
pub proof fn lemma_resolve_is_walk(fs: FsView, context: FsContext, components: Seq<ComponentView>)
    requires
        context.spec_resolve(fs, components) is Ok,
    ensures
        walk(fs, context.root_dir, context.current_dir, components) == context.spec_resolve(
            fs,
            components,
        ),
{
    if spec_file_name(components) is Some {
        let name = spec_file_name(components)->0;
        let before = components.drop_last();
        assert(components =~= before.push(ComponentView::Normal(name)));
        lemma_walk_push(
            fs,
            context.root_dir,
            context.current_dir,
            before,
            ComponentView::Normal(name),
        );
    }
}

/// After an entry was made in the directory that the text of a path
/// names, the text with the new name joined to it names the new entry,
/// for a context whose root and current directory exist. The new entry
/// goes by the stored form of the name: on ext4 letter for letter as it
/// was given.
pub proof fn lemma_create_then_resolve(
    fs: FsView,
    context: FsContext,
    path: Seq<char>,
    name: Seq<char>,
    meta: Metadata,
)
    requires
        fs.well_formed(),
        fs.valid(context.root_dir),
        fs.valid(context.current_dir),
        path.len() > 0,
        context.spec_resolve(fs, path_components(path)) is Ok,
        fs.create_error(
            context.spec_resolve(fs, path_components(path))->Ok_0,
            name,
            meta.node_type,
        ) is None,
        meta.node_type != crate::types::NodeType::Directory ==> meta.size == 0,
        meta.block_size > 0,
        meta.times_ok(),
        fs.kind == crate::model::FsKind::Fat ==> fs.inode_is_free(meta.inode),
        fs.entries.len() < usize::MAX,
        fs.nodes.len() < usize::MAX,
    ensures
        ({
            let dir = context.spec_resolve(fs, path_components(path))->Ok_0;
            let after = fs.created(dir, name, meta);
            let new = Location { index: fs.entries.len() as usize };
            &&& context.spec_resolve(after, path_components(joined(path, name))) == Ok::<
                Location,
                VfsError,
            >(new)
            &&& after.entries[new.index as int].name == fs.stored_name(name)
            &&& fs.kind == crate::model::FsKind::Ext4 ==> after.entries[new.index as int].name
                == name
        }),
{
    let components = path_components(path);
    let dir = context.spec_resolve(fs, components)->Ok_0;
    let after = fs.created(dir, name, meta);
    let all = components.push(ComponentView::Normal(name));
    lemma_joined_components(path, name);
    assert(all.drop_last() =~= components);
    lemma_resolve_is_walk(fs, context, components);
    lemma_walk_after_create(
        fs,
        dir,
        name,
        meta,
        context.root_dir,
        context.current_dir,
        components,
    );
    lemma_create_then_lookup(fs, dir, name, meta);
    fs.lemma_created_well_formed(dir, name, meta);
    assert(fs.entry_ok(dir));
    assert(after.node_of(dir) == fs.node_of(dir));
}

/// Making an entry in the directory that the text of a path names brings
/// no other name into it: the text with another name joined to it, which
/// named nothing in that directory before and is another name in stored
/// form, still fails with `NotFound`. On ext4 that is so for a name that
/// differs from the new one in the case of a letter only.
pub proof fn lemma_create_leaves_other_paths(
    fs: FsView,
    context: FsContext,
    path: Seq<char>,
    name: Seq<char>,
    meta: Metadata,
    other: Seq<char>,
)
    requires
        fs.well_formed(),
        fs.valid(context.root_dir),
        fs.valid(context.current_dir),
        path.len() > 0,
        context.spec_resolve(fs, path_components(path)) is Ok,
        fs.create_error(
            context.spec_resolve(fs, path_components(path))->Ok_0,
            name,
            meta.node_type,
        ) is None,
        meta.node_type != crate::types::NodeType::Directory ==> meta.size == 0,
        meta.block_size > 0,
        meta.times_ok(),
        fs.kind == crate::model::FsKind::Fat ==> fs.inode_is_free(meta.inode),
        fs.entries.len() < usize::MAX,
        fs.nodes.len() < usize::MAX,
        is_name(other),
        fs.stored_name(other) != fs.stored_name(name),
        fs.lookup(context.spec_resolve(fs, path_components(path))->Ok_0, other) == Err::<
            Location,
            VfsError,
        >(VfsError::NotFound),
    ensures
        context.spec_resolve(
            fs.created(context.spec_resolve(fs, path_components(path))->Ok_0, name, meta),
            path_components(joined(path, other)),
        ) == Err::<Location, VfsError>(VfsError::NotFound),
{
    let components = path_components(path);
    let dir = context.spec_resolve(fs, components)->Ok_0;
    let after = fs.created(dir, name, meta);
    let all = components.push(ComponentView::Normal(other));
    lemma_joined_components(path, other);
    assert(all.drop_last() =~= components);
    lemma_resolve_is_walk(fs, context, components);
    lemma_walk_after_create(
        fs,
        dir,
        name,
        meta,
        context.root_dir,
        context.current_dir,
        components,
    );
    lemma_create_leaves_other_names(fs, dir, name, meta, other);
    fs.lemma_created_well_formed(dir, name, meta);
    assert(fs.entry_ok(dir));
    assert(after.node_of(dir) == fs.node_of(dir));
}

/// Making an entry brings no other name into the directory: a name that
/// was not found before, and is another name in stored form, is not
/// found afterwards. On ext4 that is so for a name that differs in the
/// case of a letter only.
pub proof fn lemma_create_leaves_other_names(
    fs: FsView,
    dir: Location,
    name: Seq<char>,
    meta: Metadata,
    other: Seq<char>,
)
    requires
        fs.well_formed(),
        fs.create_error(dir, name, meta.node_type) is None,
        meta.node_type != crate::types::NodeType::Directory ==> meta.size == 0,
        meta.block_size > 0,
        meta.times_ok(),
        fs.kind == crate::model::FsKind::Fat ==> fs.inode_is_free(meta.inode),
        fs.entries.len() < usize::MAX,
        fs.nodes.len() < usize::MAX,
        fs.lookup(dir, other) == Err::<Location, VfsError>(VfsError::NotFound),
        fs.stored_name(other) != fs.stored_name(name),
    ensures
        fs.created(dir, name, meta).lookup(dir, other) == Err::<Location, VfsError>(
            VfsError::NotFound,
        ),
{
    let after = fs.created(dir, name, meta);
    let stored = fs.stored_name(other);
    fs.lemma_created_well_formed(dir, name, meta);
    assert(fs.entry_ok(dir));
    assert(after.node_of(dir) == fs.node_of(dir));
    after.lemma_find_from(dir, stored, 0);
    if after.find_child(dir, stored) is Some {
        let found = after.find_child(dir, stored)->0;
        let now = after.entries[dir.index as int].children;
        let k = choose|k: int|
            0 <= k < now.len() && #[trigger] now[k] == found.index
                && after.entries[found.index as int].name == stored;
        if k < fs.entries[dir.index as int].children.len() {
            assert(fs.child_ok(dir, k));
            assert(fs.entries[found.index as int].name == stored);
            fs.lemma_find_child_at(dir, k, 0);
        }
        assert(false);
    }
}

/// On FAT no two entries share a node, and none has the inode number of
/// another.
pub proof fn lemma_fat_entries_own_their_nodes(fs: FsView, a: Location, b: Location)
    requires
        fs.well_formed(),
        fs.kind == crate::model::FsKind::Fat,
        fs.valid(a),
        fs.valid(b),
        a != b,
    ensures
        fs.inode_of(a) != fs.inode_of(b),
        fs.entries[a.index as int].node != fs.entries[b.index as int].node,
{
    assert(fs.inode_of(a) != fs.inode_of(b));
    if fs.entries[a.index as int].node == fs.entries[b.index as int].node {
        assert(fs.node_of(a) == fs.node_of(b));
    }
}

/// Where `create_error` finds nothing against it, making an entry on FAT
/// succeeds: the inode numbers never run out there.
pub proof fn lemma_fat_create_succeeds(
    fs: FsView,
    dir: Location,
    name: Seq<char>,
    node_type: crate::types::NodeType,
    mode: crate::types::NodePermission,
    after: FsView,
    made: VfsResult<Location>,
)
    requires
        fs.kind == crate::model::FsKind::Fat,
        fs.create_error(dir, name, node_type) is None,
        fs.creates(dir, name, node_type, mode, after, made),
    ensures
        made == Ok::<Location, VfsError>(Location { index: fs.entries.len() as usize }),
        after.nodes.last().meta.mode == mode,
        after.nodes.last().meta.node_type == node_type,
{
}

} // verus!
