//! Paths as sequences of components.

use axfs_ng_vfs::path::{Component as ParsedComponent, Path};
use vstd::prelude::*;

verus! {

/// One component of a path.
#[derive(Clone, Debug)]
pub enum Component {
    /// The root directory, at the start of an absolute path.
    RootDir,
    /// `.`, the directory that the path has reached.
    CurDir,
    /// `..`, the directory above it.
    ParentDir,
    /// A name to look up.
    Normal(String),
}

/// One component of a path as a plain value.
pub enum ComponentView {
    RootDir,
    CurDir,
    ParentDir,
    Normal(Seq<char>),
}

impl View for Component {
    type V = ComponentView;

    open spec fn view(&self) -> ComponentView {
        match self {
            Component::RootDir => ComponentView::RootDir,
            Component::CurDir => ComponentView::CurDir,
            Component::ParentDir => ComponentView::ParentDir,
            Component::Normal(name) => ComponentView::Normal(name@),
        }
    }
}

/// The components as plain values.
pub open spec fn component_views(components: Seq<Component>) -> Seq<ComponentView> {
    Seq::new(components.len(), |i: int| components[i]@)
}

/// The place of the first `/` of a text from the place `from` on; the
/// length of the text where there is none.
pub open spec fn slash_from(path: Seq<char>, from: int) -> int
    decreases path.len() - from,
{
    if from < 0 || from >= path.len() {
        path.len() as int
    } else if path[from] == '/' {
        from
    } else {
        slash_from(path, from + 1)
    }
}

/// The pieces into which the slashes cut a text. A text that ends in a
/// slash has no empty piece behind it, and the empty text has no piece.
pub open spec fn pieces(path: Seq<char>) -> Seq<Seq<char>>
    decreases path.len(),
{
    let at = slash_from(path, 0);
    if path.len() == 0 {
        Seq::empty()
    } else if 0 <= at < path.len() {
        seq![path.subrange(0, at)] + pieces(path.subrange(at + 1, path.len() as int))
    } else {
        seq![path]
    }
}

/// Where `slash_from` arrives there is a slash, or the end, and there is
/// no slash before it.
pub proof fn lemma_slash_from(path: Seq<char>, from: int)
    requires
        0 <= from <= path.len(),
    ensures
        from <= slash_from(path, from) <= path.len(),
        slash_from(path, from) < path.len() ==> path[slash_from(path, from)] == '/',
        forall|i: int| from <= i < slash_from(path, from) ==> path[i] != '/',
    decreases path.len() - from,
{
    if from < path.len() && path[from] != '/' {
        lemma_slash_from(path, from + 1);
    }
}

/// A text without a slash is one piece, unless it is empty.
pub proof fn lemma_one_piece(path: Seq<char>)
    requires
        path.len() > 0,
        !path.contains('/'),
    ensures
        pieces(path) == seq![path],
{
    lemma_slash_from(path, 0);
    let at = slash_from(path, 0);
    if at < path.len() {
        assert(path.contains(path[at]));
    }
}

/// The first slash of a text is the first slash of the text with more
/// behind it, where that begins with a slash.
pub proof fn lemma_slash_from_longer(path: Seq<char>, more: Seq<char>, from: int)
    requires
        0 <= from <= path.len(),
        more.len() > 0,
        more[0] == '/',
    ensures
        slash_from(path + more, from) == slash_from(path, from),
    decreases path.len() - from,
{
    let all = path + more;
    if from < path.len() {
        assert(all[from] == path[from]);
        if path[from] != '/' {
            lemma_slash_from_longer(path, more, from + 1);
        }
    } else {
        assert(all[from] == more[0]);
    }
}

/// A name behind a slash is one more piece: behind the pieces of the text
/// before the slash, or behind an empty piece where no text is before it.
/// The text before the slash must not end in a slash itself.
pub proof fn lemma_pieces_append(path: Seq<char>, name: Seq<char>)
    requires
        name.len() > 0,
        !name.contains('/'),
        path.len() > 0 ==> path.last() != '/',
    ensures
        pieces(path + seq!['/'] + name) == (if path.len() == 0 {
            seq![Seq::<char>::empty()]
        } else {
            pieces(path)
        }) + seq![name],
    decreases path.len(),
{
    let more = seq!['/'] + name;
    let all = path + seq!['/'] + name;
    assert(all =~= path + more);
    lemma_slash_from_longer(path, more, 0);
    lemma_slash_from(path, 0);
    lemma_one_piece(name);
    let at = slash_from(path, 0);
    assert(slash_from(all, 0) == at);
    if at >= path.len() {
        assert(all.subrange(0, at) =~= path);
        assert(all.subrange(at + 1, all.len() as int) =~= name);
        assert(pieces(all) == seq![all.subrange(0, at)] + pieces(
            all.subrange(at + 1, all.len() as int),
        ));
        if path.len() > 0 {
            assert(pieces(path) == seq![path]);
            assert(pieces(all) =~= pieces(path) + seq![name]);
        } else {
            assert(path =~= Seq::<char>::empty());
            assert(pieces(all) =~= seq![Seq::<char>::empty()] + seq![name]);
        }
    } else {
        assert(path[at] == '/');
        let rest = path.subrange(at + 1, path.len() as int);
        assert(rest.len() > 0 && rest.last() == path.last());
        assert(all.subrange(0, at) =~= path.subrange(0, at));
        assert(all.subrange(at + 1, all.len() as int) =~= rest + seq!['/'] + name);
        lemma_pieces_append(rest, name);
        assert(pieces(path) == seq![path.subrange(0, at)] + pieces(rest));
        assert(pieces(all) == seq![all.subrange(0, at)] + pieces(
            all.subrange(at + 1, all.len() as int),
        ));
        assert(pieces(all) =~= pieces(path) + seq![name]);
    }
}

/// The component that a piece stands for: an empty first piece is the
/// root, a first `.` the current directory, `..` the directory above and
/// every other piece a name; an empty piece and a `.` further on stand
/// for nothing.
pub open spec fn piece_component(piece: Seq<char>, first: bool) -> Option<ComponentView> {
    if piece.len() == 0 {
        if first {
            Some(ComponentView::RootDir)
        } else {
            None
        }
    } else if piece == seq!['.'] {
        if first {
            Some(ComponentView::CurDir)
        } else {
            None
        }
    } else if piece == seq!['.', '.'] {
        Some(ComponentView::ParentDir)
    } else {
        Some(ComponentView::Normal(piece))
    }
}

/// The components that pieces stand for, one after the other; `first`
/// says whether the pieces begin the path.
pub open spec fn pieces_components(pieces: Seq<Seq<char>>, first: bool) -> Seq<ComponentView>
    decreases pieces.len(),
{
    if pieces.len() == 0 {
        Seq::empty()
    } else {
        let rest = pieces_components(pieces.drop_first(), false);
        match piece_component(pieces[0], first) {
            Some(component) => seq![component] + rest,
            None => rest,
        }
    }
}

/// The components that the text of a path falls into, from its start to
/// its end.
pub open spec fn path_components(path: Seq<char>) -> Seq<ComponentView> {
    pieces_components(pieces(path), true)
}

/// The text of a path with a name joined to it: a slash goes between the
/// two unless the path ends in one.
pub open spec fn joined(path: Seq<char>, name: Seq<char>) -> Seq<char> {
    if path.len() > 0 && path.last() == '/' {
        path + name
    } else {
        path + seq!['/'] + name
    }
}

/// Whether a piece of a path is a name: not empty, without a slash, and
/// neither `.` nor `..`.
pub open spec fn is_name(piece: Seq<char>) -> bool {
    &&& piece.len() > 0
    &&& !piece.contains('/')
    &&& piece != seq!['.']
    &&& piece != seq!['.', '.']
}

/// The components of pieces behind a first piece are those of the first
/// piece, if it stands for one, and then those of the others.
pub proof fn lemma_pieces_components_cons(head: Seq<char>, tail: Seq<Seq<char>>, first: bool)
    ensures
        pieces_components(seq![head] + tail, first) == (match piece_component(head, first) {
            Some(component) => seq![component],
            None => Seq::empty(),
        }) + pieces_components(tail, false),
{
    let all = seq![head] + tail;
    assert(all.drop_first() =~= tail);
    assert(all[0] == head);
    let rest = pieces_components(tail, false);
    match piece_component(head, first) {
        Some(component) => {},
        None => {
            assert(Seq::<ComponentView>::empty() + rest =~= rest);
        },
    }
}

/// A slash at the end of a text adds no component, unless the slash is
/// the whole of a path: that is the root.
pub proof fn lemma_components_trailing_slash(path: Seq<char>, first: bool)
    requires
        path.len() > 0 || !first,
    ensures
        pieces_components(pieces(path + seq!['/']), first) == pieces_components(
            pieces(path),
            first,
        ),
    decreases path.len(),
{
    let more = seq!['/'];
    let all = path + more;
    let none = Seq::<char>::empty();
    lemma_slash_from_longer(path, more, 0);
    lemma_slash_from(path, 0);
    let at = slash_from(path, 0);
    let behind = all.subrange(at + 1, all.len() as int);
    assert(pieces(all) == seq![all.subrange(0, at)] + pieces(behind));
    lemma_pieces_components_cons(all.subrange(0, at), pieces(behind), first);
    if at >= path.len() {
        assert(all.subrange(0, at) =~= path);
        assert(behind =~= none);
        assert(pieces(behind) =~= Seq::<Seq<char>>::empty());
        if path.len() > 0 {
            assert(pieces(path) == seq![path]);
            assert(seq![path] =~= seq![path] + Seq::<Seq<char>>::empty());
            lemma_pieces_components_cons(path, Seq::<Seq<char>>::empty(), first);
        } else {
            assert(path =~= none);
            assert(pieces(path) =~= Seq::<Seq<char>>::empty());
        }
    } else {
        let rest = path.subrange(at + 1, path.len() as int);
        assert(all.subrange(0, at) =~= path.subrange(0, at));
        assert(behind =~= rest + more);
        lemma_components_trailing_slash(rest, false);
        assert(pieces(path) == seq![path.subrange(0, at)] + pieces(rest));
        lemma_pieces_components_cons(path.subrange(0, at), pieces(rest), first);
    }
}

/// A name behind a slash is one more component, behind those of the text
/// before the slash. Where no text is before the slash at the start of a
/// path, the slash itself is the root.
pub proof fn lemma_components_append(path: Seq<char>, name: Seq<char>, first: bool)
    requires
        is_name(name),
        path.len() > 0 || !first,
    ensures
        pieces_components(pieces(path + seq!['/'] + name), first) == pieces_components(
            pieces(path),
            first,
        ).push(ComponentView::Normal(name)),
    decreases path.len(),
{
    let more = seq!['/'] + name;
    let all = path + seq!['/'] + name;
    let none = Seq::<char>::empty();
    let last = seq![ComponentView::Normal(name)];
    assert(all =~= path + more);
    lemma_slash_from_longer(path, more, 0);
    lemma_slash_from(path, 0);
    lemma_one_piece(name);
    let at = slash_from(path, 0);
    let behind = all.subrange(at + 1, all.len() as int);
    assert(pieces(all) == seq![all.subrange(0, at)] + pieces(behind));
    lemma_pieces_components_cons(all.subrange(0, at), pieces(behind), first);
    assert(seq![name] =~= seq![name] + Seq::<Seq<char>>::empty());
    lemma_pieces_components_cons(name, Seq::<Seq<char>>::empty(), false);
    assert(pieces_components(seq![name], false) =~= last);
    if at >= path.len() {
        assert(all.subrange(0, at) =~= path);
        assert(behind =~= name);
        if path.len() > 0 {
            assert(pieces(path) == seq![path]);
            assert(seq![path] =~= seq![path] + Seq::<Seq<char>>::empty());
            lemma_pieces_components_cons(path, Seq::<Seq<char>>::empty(), first);
            assert(pieces_components(pieces(all), first) =~= pieces_components(
                pieces(path),
                first,
            ).push(ComponentView::Normal(name)));
        } else {
            assert(path =~= none);
            assert(pieces(path) =~= Seq::<Seq<char>>::empty());
            assert(pieces_components(pieces(all), first) =~= pieces_components(
                pieces(path),
                first,
            ).push(ComponentView::Normal(name)));
        }
    } else {
        let rest = path.subrange(at + 1, path.len() as int);
        assert(all.subrange(0, at) =~= path.subrange(0, at));
        assert(behind =~= rest + seq!['/'] + name);
        lemma_components_append(rest, name, false);
        assert(pieces(path) == seq![path.subrange(0, at)] + pieces(rest));
        lemma_pieces_components_cons(path.subrange(0, at), pieces(rest), first);
        assert(pieces_components(pieces(all), first) =~= pieces_components(
            pieces(path),
            first,
        ).push(ComponentView::Normal(name)));
    }
}

/// The components of a path with a name joined to it are those of the
/// path, and then the name.
pub proof fn lemma_joined_components(path: Seq<char>, name: Seq<char>)
    requires
        path.len() > 0,
        is_name(name),
    ensures
        path_components(joined(path, name)) == path_components(path).push(
            ComponentView::Normal(name),
        ),
{
    if path.last() == '/' {
        let before = path.drop_last();
        assert(path =~= before + seq!['/']);
        assert(joined(path, name) =~= before + seq!['/'] + name);
        if before.len() > 0 {
            lemma_components_append(before, name, true);
            lemma_components_trailing_slash(before, true);
        } else {
            let none = Seq::<char>::empty();
            let root = seq!['/'];
            let all = root + name;
            assert(before =~= none);
            assert(before + seq!['/'] + name =~= all);
            assert(path =~= root);
            lemma_one_piece(name);
            assert(slash_from(all, 0) == 0);
            assert(slash_from(root, 0) == 0);
            assert(all.subrange(0, 0) =~= none);
            assert(root.subrange(0, 0) =~= none);
            assert(all.subrange(1, all.len() as int) =~= name);
            assert(root.subrange(1, 1) =~= none);
            assert(pieces(none) =~= Seq::<Seq<char>>::empty());
            assert(pieces(all) == seq![none] + seq![name]);
            assert(pieces(root) == seq![none] + Seq::<Seq<char>>::empty());
            lemma_pieces_components_cons(none, seq![name], true);
            lemma_pieces_components_cons(none, Seq::<Seq<char>>::empty(), true);
            assert(seq![name] =~= seq![name] + Seq::<Seq<char>>::empty());
            lemma_pieces_components_cons(name, Seq::<Seq<char>>::empty(), false);
            assert(path_components(all) =~= path_components(root).push(
                ComponentView::Normal(name),
            ));
        }
    } else {
        lemma_components_append(path, name, true);
    }
}

/// Splits the text of a path with `Path::components` of axfs-ng-vfs, walked
/// from the front, and copies each component. That parser cuts the text at
/// each `/` and reads the pieces as `piece_component` says; a text that
/// ends in a slash ends there.
#[verifier::external_body]
pub(crate) fn components(path: &str) -> (parsed: Vec<Component>)
    ensures
        component_views(parsed@) == path_components(path@),
{
    Path::new(path).components().map(
        |c| match c {
            ParsedComponent::RootDir => Component::RootDir,
            ParsedComponent::CurDir => Component::CurDir,
            ParsedComponent::ParentDir => Component::ParentDir,
            ParsedComponent::Normal(name) => Component::Normal(name.to_owned()),
        },
    ).collect()
}

/// The name that a path ends in: its last component, where that is a name.
pub open spec fn spec_file_name(components: Seq<ComponentView>) -> Option<Seq<char>> {
    if components.len() > 0 {
        match components.last() {
            ComponentView::Normal(name) => Some(name),
            _ => None,
        }
    } else {
        None
    }
}

/// The components that lead to the directory in which the path ends: all
/// of them but the name that the path ends in.
pub open spec fn spec_dir_components(components: Seq<ComponentView>) -> Seq<ComponentView> {
    if spec_file_name(components) is Some {
        components.drop_last()
    } else {
        components
    }
}

/// Returns the name that a path ends in, if it ends in one.
pub fn file_name(components: &Vec<Component>) -> (name: Option<String>)
    ensures
        match name {
            Some(name) => spec_file_name(component_views(components@)) == Some(name@),
            None => spec_file_name(component_views(components@)) is None,
        },
{
    if components.len() == 0 {
        return None;
    }
    match &components[components.len() - 1] {
        Component::Normal(name) => Some(name.clone()),
        _ => None,
    }
}

/// Whether a path begins at the root.
pub open spec fn spec_is_absolute(components: Seq<ComponentView>) -> bool {
    components.len() > 0 && components[0] is RootDir
}

/// Tells whether a path begins at the root.
pub fn is_absolute(components: &Vec<Component>) -> (absolute: bool)
    ensures
        absolute == spec_is_absolute(component_views(components@)),
{
    if components.len() == 0 {
        return false;
    }
    match &components[0] {
        Component::RootDir => true,
        _ => false,
    }
}

} // verus!
