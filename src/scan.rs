//! Selection of the regular files among the entries of a tree walk.

use vstd::prelude::*;
use crate::error::DeployError;
use crate::paths::copy_path;

verus! {

/// What the metadata of a walked entry says it is.
#[derive(Debug, Clone, Copy, PartialEq, Eq, Structural)]
pub enum EntryKind {
    /// A regular file, after following symlinks.
    Regular,
    /// A directory: walked into, never deployed.
    Directory,
    /// Anything else (a socket, a device): skipped.
    Special,
    /// The entry or its metadata could not be read.
    Unreadable,
}

/// One entry met while walking the source tree.
pub struct ScanEntry {
    pub path: Vec<String>,
    pub kind: EntryKind,
}

/// Whether the walk met an unreadable entry.
pub open spec fn has_unreadable(entries: Seq<ScanEntry>) -> bool {
    exists|i: int| 0 <= i < entries.len() && entries[i].kind == EntryKind::Unreadable
}

/// The paths of the regular entries, in the order of the walk.
pub open spec fn regular_paths(entries: Seq<ScanEntry>) -> Seq<Seq<Seq<char>>>
    decreases entries.len(),
{
    if entries.len() == 0 {
        Seq::empty()
    } else if entries.last().kind == EntryKind::Regular {
        regular_paths(entries.drop_last()).push(entries.last().path.deep_view())
    } else {
        regular_paths(entries.drop_last())
    }
}

/// The paths of the regular entries, as a set.
pub open spec fn regular_set(entries: Seq<ScanEntry>) -> Set<Seq<Seq<char>>> {
    Set::new(
        |p: Seq<Seq<char>>|
            exists|i: int|
                0 <= i < entries.len() && entries[i].kind == EntryKind::Regular
                    && entries[i].path.deep_view() == p,
    )
}

/// Each path of `regular_paths` is the path of a regular entry.
pub proof fn lemma_regular_paths_from_entries(entries: Seq<ScanEntry>, j: int)
    requires
        0 <= j < regular_paths(entries).len(),
    ensures
        exists|i: int|
            0 <= i < entries.len() && entries[i].kind == EntryKind::Regular
                && #[trigger] entries[i].path.deep_view() == regular_paths(entries)[j],
    decreases entries.len(),
{
    let rest = entries.drop_last();
    if j < regular_paths(rest).len() {
        lemma_regular_paths_from_entries(rest, j);
        let i = choose|i: int|
            0 <= i < rest.len() && rest[i].kind == EntryKind::Regular
                && #[trigger] rest[i].path.deep_view() == regular_paths(rest)[j];
        assert(entries[i] == rest[i]);
    } else {
        assert(entries[entries.len() - 1] == entries.last());
    }
}

/// Where the walk lists each path once, each regular file is selected once.
pub proof fn lemma_regular_paths_once(entries: Seq<ScanEntry>)
    requires
        forall|a: int, b: int|
            0 <= a < b < entries.len() ==> entries[a].path.deep_view() != entries[b].path.deep_view(),
    ensures
        regular_paths(entries).no_duplicates(),
    decreases entries.len(),
{
    if entries.len() > 0 {
        let rest = entries.drop_last();
        assert forall|a: int, b: int| 0 <= a < b < rest.len() implies rest[a].path.deep_view() != rest[b].path.deep_view() by {
            assert(rest[a] == entries[a] && rest[b] == entries[b]);
        }
        lemma_regular_paths_once(rest);
        if entries.last().kind == EntryKind::Regular {
            let prev = regular_paths(rest);
            let last = entries.last().path.deep_view();
            assert forall|j: int| 0 <= j < prev.len() implies prev[j] != last by {
                lemma_regular_paths_from_entries(rest, j);
                let i = choose|i: int|
                    0 <= i < rest.len() && rest[i].kind == EntryKind::Regular
                        && #[trigger] rest[i].path.deep_view() == prev[j];
                assert(rest[i] == entries[i]);
                assert(entries[entries.len() - 1] == entries.last());
            }
            let all = prev.push(last);
            assert forall|a: int, b: int| 0 <= a < all.len() && 0 <= b < all.len() && a != b implies all[a] != all[b] by {
                if a < prev.len() && b < prev.len() {
                    assert(all[a] == prev[a] && all[b] == prev[b]);
                } else if a < prev.len() {
                    assert(all[a] == prev[a]);
                } else {
                    assert(all[b] == prev[b]);
                }
            }
        }
    }
}

/// The regular files among the walked entries. Any unreadable entry fails
/// the whole scan; otherwise the files returned are exactly the regular
/// entries, in the order of the walk.
pub fn select_files(entries: &Vec<ScanEntry>) -> (r: Result<Vec<Vec<String>>, DeployError>)
    ensures
        r is Err <==> has_unreadable(entries@),
        r matches Err(e) ==> e == DeployError::Traversal,
        r matches Ok(files) ==> files.deep_view() == regular_paths(entries@),
        r matches Ok(files) ==> files.deep_view().to_set() == regular_set(entries@),
        r matches Ok(files) ==> files.len() <= entries.len(),
{
    let mut files: Vec<Vec<String>> = Vec::new();
    let mut i: usize = 0;
    while i < entries.len()
        invariant
            i <= entries.len(),
            files.len() <= i,
            forall|k: int| 0 <= k < i ==> entries@[k].kind != EntryKind::Unreadable,
            files.deep_view() == regular_paths(entries@.subrange(0, i as int)),
            files.deep_view().to_set() == regular_set(entries@.subrange(0, i as int)),
        decreases entries.len() - i,
    {
        let entry = &entries[i];
        let ghost before = files.deep_view();
        assert(entries@.subrange(0, i + 1).drop_last() == entries@.subrange(0, i as int));
        match entry.kind {
            EntryKind::Unreadable => {
                return Err(DeployError::Traversal);
            },
            EntryKind::Regular => {
                files.push(copy_path(&entry.path));
                assert(files.deep_view() =~= before.push(entry.path.deep_view()));
            },
            _ => {
                assert(files.deep_view() =~= before);
            },
        }
        assert(files.deep_view().to_set() =~= regular_set(entries@.subrange(0, i + 1))) by {
            let s = entries@.subrange(0, i + 1);
            let t = entries@.subrange(0, i as int);
            assert forall|p: Seq<Seq<char>>| regular_set(s).contains(p)
                implies files.deep_view().to_set().contains(p) by {
                let k = choose|k: int|
                    0 <= k < s.len() && s[k].kind == EntryKind::Regular && s[k].path.deep_view() == p;
                if k < i {
                    assert(t[k] == s[k]);
                    assert(regular_set(t).contains(p));
                    assert(before.to_set().contains(p));
                    let j = choose|j: int| 0 <= j < before.len() && before[j] == p;
                    assert(files.deep_view()[j] == p);
                } else {
                    assert(files.deep_view()[files.len() - 1] == p);
                }
            }
            assert forall|p: Seq<Seq<char>>| files.deep_view().to_set().contains(p)
                implies regular_set(s).contains(p) by {
                let j = choose|j: int| 0 <= j < files.len() && files.deep_view()[j] == p;
                if j < before.len() {
                    assert(before[j] == p);
                    assert(before.to_set().contains(p));
                    let k = choose|k: int|
                        0 <= k < t.len() && t[k].kind == EntryKind::Regular && t[k].path.deep_view() == p;
                    assert(s[k] == t[k]);
                } else {
                    assert(s[i as int] == entries@[i as int]);
                }
            }
        }
        i = i + 1;
    }
    proof {
        assert(entries@.subrange(0, entries.len() as int) == entries@);
    }
    Ok(files)
}

} // verus!
