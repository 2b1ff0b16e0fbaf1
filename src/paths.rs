//! File names and paths as sequences of components.
//!
//! A path is a `Vec<String>` of components; its model is the sequence of the
//! components' characters (`deep_view`). File names follow the rules of
//! `std::path::Path`: the extension is what follows the last dot, unless that
//! dot is the first character of the name, and `..` has no extension.

use vstd::prelude::*;

verus! {

/// Index of the last `'.'` in `name`, or `-1` where it holds none.
pub open spec fn last_dot(name: Seq<char>) -> int
    decreases name.len(),
{
    if name.len() == 0 {
        -1
    } else if name.last() == '.' {
        name.len() - 1
    } else {
        last_dot(name.drop_last())
    }
}

/// Whether `name` splits into a stem and an extension.
pub open spec fn has_extension(name: Seq<char>) -> bool {
    name != seq!['.', '.'] && last_dot(name) > 0
}

/// The extension of a file name, without its dot.
pub open spec fn extension_of(name: Seq<char>) -> Option<Seq<char>> {
    if has_extension(name) {
        Some(name.subrange(last_dot(name) + 1, name.len() as int))
    } else {
        None
    }
}

/// The file name without its extension and the dot before it.
pub open spec fn stem_of(name: Seq<char>) -> Seq<char> {
    if has_extension(name) {
        name.subrange(0, last_dot(name))
    } else {
        name
    }
}

/// Whether `root` is a leading run of components of `path`.
pub open spec fn starts_with(path: Seq<Seq<char>>, root: Seq<Seq<char>>) -> bool {
    root.len() <= path.len() && path.subrange(0, root.len() as int) == root
}

/// The last dot lies in the name, and no dot follows it.
pub proof fn lemma_last_dot(name: Seq<char>)
    ensures
        -1 <= last_dot(name) < name.len(),
        last_dot(name) >= 0 ==> name[last_dot(name)] == '.',
        forall|j: int| last_dot(name) < j < name.len() ==> name[j] != '.',
    decreases name.len(),
{
    if name.len() > 0 && name.last() != '.' {
        let rest = name.drop_last();
        lemma_last_dot(rest);
        assert forall|j: int| last_dot(name) < j < name.len() implies name[j] != '.' by {
            if j < rest.len() {
                assert(name[j] == rest[j]);
            }
        }
    }
}

/// A name with an extension is its stem, a dot and the extension.
pub proof fn lemma_stem_dot_extension(name: Seq<char>)
    requires
        extension_of(name) is Some,
    ensures
        name == stem_of(name) + seq!['.'] + extension_of(name)->Some_0,
        !extension_of(name)->Some_0.contains('.'),
{
    lemma_last_dot(name);
    let d = last_dot(name);
    let e = extension_of(name)->Some_0;
    assert(name == stem_of(name) + seq!['.'] + e);
    assert forall|k: int| 0 <= k < e.len() implies e[k] != '.' by {
        assert(e[k] == name[d + 1 + k]);
    }
}

/// Index of the last dot of `name`, found from the end.
fn find_last_dot(name: &str) -> (r: Option<usize>)
    ensures
        match r {
            None => last_dot(name@) == -1,
            Some(i) => i == last_dot(name@),
        },
{
    let n = name.unicode_len();
    let mut i: usize = n;
    assert(name@.subrange(0, n as int) == name@);
    while i > 0
        invariant
            i <= n == name@.len(),
            last_dot(name@) == last_dot(name@.subrange(0, i as int)),
        decreases i,
    {
        assert(name@.subrange(0, i as int).drop_last() == name@.subrange(0, i - 1));
        if name.get_char(i - 1) == '.' {
            return Some(i - 1);
        }
        i = i - 1;
    }
    assert(name@.subrange(0, 0) == Seq::<char>::empty());
    None
}

/// Whether `name` is exactly `..`.
fn is_parent_name(name: &str) -> (r: bool)
    ensures
        r == (name@ == seq!['.', '.']),
{
    if name.unicode_len() == 2 && name.get_char(0) == '.' && name.get_char(1) == '.' {
        assert(name@ == seq!['.', '.']);
        true
    } else {
        false
    }
}

/// The extension of a file name, as `Path::extension` gives it.
pub fn extension(name: &str) -> (r: Option<String>)
    ensures
        match r {
            None => extension_of(name@) is None,
            Some(e) => extension_of(name@) == Some(e@),
        },
{
    let parent = is_parent_name(name);
    let n = name.unicode_len();
    match find_last_dot(name) {
        Some(d) => {
            if d > 0 && !parent {
                proof {
                    lemma_last_dot(name@);
                }
                Some(name.substring_char(d + 1, n).to_owned())
            } else {
                None
            }
        },
        None => None,
    }
}

/// The file name without its extension, as `Path::file_stem` gives it.
pub fn file_stem(name: &str) -> (r: String)
    ensures
        r@ == stem_of(name@),
{
    let parent = is_parent_name(name);
    match find_last_dot(name) {
        Some(d) => {
            if d > 0 && !parent {
                proof {
                    lemma_last_dot(name@);
                }
                name.substring_char(0, d).to_owned()
            } else {
                name.to_owned()
            }
        },
        None => name.to_owned(),
    }
}

/// A component-by-component copy of a path.
pub fn copy_path(path: &Vec<String>) -> (r: Vec<String>)
    ensures
        r.deep_view() == path.deep_view(),
{
    let mut r: Vec<String> = Vec::new();
    let mut i: usize = 0;
    while i < path.len()
        invariant
            i <= path.len(),
            r@ == path@.subrange(0, i as int),
        decreases path.len() - i,
    {
        r.push(path[i].clone());
        assert(r@ =~= path@.subrange(0, i + 1));
        i = i + 1;
    }
    assert(r@ =~= path@);
    assert(r.deep_view() =~= path.deep_view());
    r
}

/// The components of `root` followed by those of `rel`.
pub fn join(root: &Vec<String>, rel: &Vec<String>) -> (r: Vec<String>)
    ensures
        r.deep_view() == root.deep_view() + rel.deep_view(),
{
    let mut r: Vec<String> = Vec::new();
    let mut i: usize = 0;
    while i < root.len()
        invariant
            i <= root.len(),
            r@ == root@.subrange(0, i as int),
        decreases root.len() - i,
    {
        r.push(root[i].clone());
        assert(r@ =~= root@.subrange(0, i + 1));
        i = i + 1;
    }
    assert(r@ =~= root@);
    let mut j: usize = 0;
    while j < rel.len()
        invariant
            j <= rel.len(),
            r@ == root@ + rel@.subrange(0, j as int),
        decreases rel.len() - j,
    {
        r.push(rel[j].clone());
        assert(r@ =~= root@ + rel@.subrange(0, j + 1));
        j = j + 1;
    }
    assert(r@ =~= root@ + rel@);
    assert(r.deep_view() =~= root.deep_view() + rel.deep_view());
    r
}

/// Whether `root` is a leading run of the components of `path`.
pub fn path_starts_with(path: &Vec<String>, root: &Vec<String>) -> (r: bool)
    ensures
        r == starts_with(path.deep_view(), root.deep_view()),
{
    if root.len() > path.len() {
        return false;
    }
    let mut i: usize = 0;
    while i < root.len()
        invariant
            root.len() <= path.len(),
            i <= root.len(),
            path.deep_view().subrange(0, i as int) == root.deep_view().subrange(0, i as int),
        decreases root.len() - i,
    {
        if path[i] != root[i] {
            assert(path.deep_view().subrange(0, root.len() as int)[i as int] != root.deep_view()[i as int]);
            return false;
        }
        assert(path.deep_view().subrange(0, i + 1) == root.deep_view().subrange(0, i + 1));
        i = i + 1;
    }
    assert(root.deep_view().subrange(0, root.len() as int) == root.deep_view());
    true
}

/// The components of `path` after its first `n`.
pub fn skip_components(path: &Vec<String>, n: usize) -> (r: Vec<String>)
    requires
        n <= path.len(),
    ensures
        r.deep_view() == path.deep_view().skip(n as int),
{
    let mut r: Vec<String> = Vec::new();
    let mut i: usize = n;
    while i < path.len()
        invariant
            n <= i <= path.len(),
            r@ == path@.subrange(n as int, i as int),
        decreases path.len() - i,
    {
        r.push(path[i].clone());
        assert(r@ =~= path@.subrange(n as int, i + 1));
        i = i + 1;
    }
    assert(r.deep_view() =~= path.deep_view().skip(n as int));
    r
}

/// `path` with the leading components `root` taken off, where `root` leads it.
pub fn strip_root(path: &Vec<String>, root: &Vec<String>) -> (r: Option<Vec<String>>)
    ensures
        r is Some == starts_with(path.deep_view(), root.deep_view()),
        r matches Some(rel) ==> rel.deep_view() == path.deep_view().skip(root.len() as int),
{
    if path_starts_with(path, root) {
        Some(skip_components(path, root.len()))
    } else {
        None
    }
}

} // verus!
