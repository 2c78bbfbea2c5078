//! Paths of files, as texts.

use vstd::prelude::*;

verus! {

/// The place of the last `c`; -1 where there is none.
pub open spec fn last_place(s: Seq<char>, c: char) -> int
    decreases s.len(),
{
    if s.len() == 0 {
        -1
    } else if s.last() == c {
        s.len() - 1
    } else {
        last_place(s.drop_last(), c)
    }
}

/// A path without what stands for nothing at its end: slashes, and components that
/// are a dot alone.
pub open spec fn without_end(path: Seq<char>) -> Seq<char>
    decreases path.len(),
{
    let n = path.len();
    if n > 0 && path[n - 1] == '/' {
        without_end(path.take(n - 1))
    } else if n > 1 && path[n - 1] == '.' && path[n - 2] == '/' {
        without_end(path.take(n - 2))
    } else {
        path
    }
}

/// The last component of a path: what follows its last slash, what stands for
/// nothing at its end left aside.
pub open spec fn file_part(path: Seq<char>) -> Seq<char> {
    let p = without_end(path);
    p.skip(last_place(p, '/') + 1)
}

/// The name that a path ends in. The empty path and the root have none, nor has a
/// path that ends in a dot component.
pub open spec fn name_of(path: Seq<char>) -> Option<Seq<char>> {
    let part = file_part(path);
    if part.len() == 0 || part == seq!['.'] || part == seq!['.', '.'] {
        None
    } else {
        Some(part)
    }
}

/// A file name without what follows its last dot; a dot at the start is no such
/// dot.
pub open spec fn stem_of(name: Seq<char>) -> Seq<char> {
    if last_place(name, '.') > 0 { name.take(last_place(name, '.')) } else { name }
}

/// Does the path start like one that names a drive?
pub open spec fn like_a_drive(path: Seq<char>) -> bool {
    path.len() >= 2 && path[1] == ':'
}

/// Is the path's end read alike on every platform? Its components are separated by
/// slashes alone, it does not start like a network share, and its last component
/// is not also its first with what could be a drive in it.
pub open spec fn is_portable(path: Seq<char>) -> bool {
    &&& !path.contains('\\')
    &&& !(path.len() >= 2 && path[0] == '/' && path[1] == '/')
    &&& like_a_drive(path) ==> without_end(path).contains('/')
}

/// `std::path::Path::file_stem`, as text: the name that a path ends in, without
/// what follows its last dot. What else separates components depends on the
/// platform, so of paths that are read differently on some platforms the stem is
/// left unsaid.
#[verifier::external_body]
pub(crate) fn path_stem(path: &str) -> (r: Option<String>)
    ensures
        is_portable(path@) ==> match name_of(path@) {
            Some(name) => r matches Some(s) && s@ == stem_of(name),
            None => r is None,
        },
{
    std::path::Path::new(path).file_stem().map(|s| s.to_string_lossy().into_owned())
}

pub(crate) proof fn last_place_is_a_place(s: Seq<char>, c: char)
    ensures
        -1 <= last_place(s, c) < s.len(),
    decreases s.len(),
{
    if s.len() > 0 && s.last() != c {
        last_place_is_a_place(s.drop_last(), c);
    }
}

/// `std::path::Path::file_name`, as text: the name that a path ends in. Of paths
/// that are read differently on some platforms it is left unsaid.
#[verifier::external_body]
pub(crate) fn path_name(path: &str) -> (r: Option<String>)
    ensures
        is_portable(path@) ==> match name_of(path@) {
            Some(name) => r matches Some(s) && s@ == name,
            None => r is None,
        },
{
    std::path::Path::new(path).file_name().map(|s| s.to_string_lossy().into_owned())
}

/// Does a component that is a dot alone start at `i`?
pub open spec fn is_dot_at(path: Seq<char>, i: int) -> bool {
    i < path.len() && path[i] == '.' && (i + 1 == path.len() || path[i + 1] == '/')
}

/// Is the path written in the plain way: without a drive, with slashes, none of
/// them doubled or at the end, and with no component that is a dot alone?
pub open spec fn is_plain(path: Seq<char>) -> bool {
    &&& path.len() > 0
    &&& !path.contains('\\')
    &&& !like_a_drive(path)
    &&& !is_dot_at(path, 0)
    &&& forall|i: int|
        0 <= i < path.len() && #[trigger] path[i] == '/' ==> i + 1 < path.len() && path[i + 1] != '/'
            && !is_dot_at(path, i + 1)
}

/// The equality of `std::path::Path`, which compares component by component.
/// Equal texts are equal paths, and plain paths are equal only where their
/// texts are. Which other ways to write a path are taken for the same depends on
/// the platform, and is left unsaid.
#[verifier::external_body]
pub(crate) fn same_path(a: &str, b: &str) -> (r: bool)
    ensures
        a@ == b@ ==> r,
        is_plain(a@) && is_plain(b@) ==> r == (a@ == b@),
{
    std::path::Path::new(a) == std::path::Path::new(b)
}

proof fn lemma_last_place(a: Seq<char>, c: char, b: Seq<char>)
    requires
        !b.contains(c),
    ensures
        last_place(a.push(c) + b, c) == a.len(),
    decreases b.len(),
{
    let all = a.push(c) + b;
    if b.len() > 0 {
        assert(b[b.len() - 1] != c);
        let front = b.drop_last();
        if front.contains(c) {
            let k = choose|k: int| 0 <= k < front.len() && front[k] == c;
            assert(b[k] == c);
        }
        lemma_last_place(a, c, front);
        assert(all.drop_last() =~= a.push(c) + front);
        assert(all.last() == b[b.len() - 1]);
    } else {
        assert(all =~= a.push(c));
    }
}

/// The name of a file in a directory is the file's, whatever the directory is called, and
/// trailing slashes do not hide it.
pub proof fn name_is_behind_the_last_slash(dir: Seq<char>, name: Seq<char>)
    requires
        name.len() > 0,
        !name.contains('/'),
        name != seq!['.'],
        name != seq!['.', '.'],
    ensures
        name_of(dir.push('/') + name) == Some(name),
        name_of((dir.push('/') + name).push('/')) == Some(name),
{
    let path = dir.push('/') + name;
    let n = path.len();
    assert(path[n - 1] == name[name.len() - 1]);
    assert(name[name.len() - 1] != '/');
    if path[n - 1] == '.' && path[n - 2] == '/' {
        if name.len() == 1 {
            assert(name =~= seq!['.']);
        } else {
            assert(path[n - 2] == name[name.len() - 2]);
            assert(name[name.len() - 2] != '/');
        }
    }
    assert(without_end(path) == path);
    lemma_last_place(dir, '/', name);
    assert(path.skip(dir.len() as int + 1) =~= name);
    let longer = path.push('/');
    assert(longer.take(longer.len() - 1) =~= path);
    assert(without_end(longer) == path);
}

/// The stem of a file name is what stands before its last dot; a name without a dot, or
/// with one at its start alone, is its own stem.
pub proof fn stem_is_before_the_last_dot(stem: Seq<char>, ext: Seq<char>)
    requires
        !ext.contains('.'),
    ensures
        stem.len() > 0 ==> stem_of(stem.push('.') + ext) == stem,
        stem_of(ext) == ext,
        stem_of(seq!['.'] + ext) == seq!['.'] + ext,
{
    lemma_last_place(stem, '.', ext);
    assert((stem.push('.') + ext).take(stem.len() as int) =~= stem);
    lemma_last_place(seq![], '.', ext);
    assert(Seq::<char>::empty().push('.') + ext =~= seq!['.'] + ext);
    lemma_absent(ext, '.');
}

proof fn lemma_absent(s: Seq<char>, c: char)
    requires
        !s.contains(c),
    ensures
        last_place(s, c) == -1,
    decreases s.len(),
{
    if s.len() > 0 {
        assert(s[s.len() - 1] != c);
        let front = s.drop_last();
        if front.contains(c) {
            let k = choose|k: int| 0 <= k < front.len() && front[k] == c;
            assert(s[k] == c);
        }
        lemma_absent(front, c);
    }
}

} // verus!
