//! The links from the home directory into the output tree: what to do with
//! whatever stands at a link target, and what a run of links leaves behind.

use vstd::prelude::*;
use crate::error::DeployError;
use crate::plan::{step_for, Layout, Step};

verus! {

/// What stands at a link target before it is linked.
#[derive(Debug, Clone, Copy, PartialEq, Eq, Structural)]
pub enum TargetKind {
    Absent,
    File,
    Symlink,
    EmptyDir,
    NonEmptyDir,
}

/// How to make room for a link.
#[derive(Debug, Clone, Copy, PartialEq, Eq, Structural)]
pub enum LinkAction {
    /// Nothing stands there: create the link.
    Create,
    /// Remove the file or the old link, then create the link.
    ReplaceFile,
    /// Remove the empty directory, then create the link.
    ReplaceDir,
}

/// The action for a target of the given kind; a directory that holds
/// entries is never removed.
pub open spec fn link_decision(kind: TargetKind) -> Result<LinkAction, DeployError> {
    match kind {
        TargetKind::Absent => Ok(LinkAction::Create),
        TargetKind::File => Ok(LinkAction::ReplaceFile),
        TargetKind::Symlink => Ok(LinkAction::ReplaceFile),
        TargetKind::EmptyDir => Ok(LinkAction::ReplaceDir),
        TargetKind::NonEmptyDir => Err(DeployError::UnsafeOverwrite),
    }
}

/// Decides how to make room for a link at a target of kind `kind`: an
/// existing file, link or empty directory is removed first, a directory
/// with entries is `UnsafeOverwrite`.
pub fn decide_link(kind: TargetKind) -> (r: Result<LinkAction, DeployError>)
    ensures
        r == link_decision(kind),
{
    match kind {
        TargetKind::Absent => Ok(LinkAction::Create),
        TargetKind::File => Ok(LinkAction::ReplaceFile),
        TargetKind::Symlink => Ok(LinkAction::ReplaceFile),
        TargetKind::EmptyDir => Ok(LinkAction::ReplaceDir),
        TargetKind::NonEmptyDir => Err(DeployError::UnsafeOverwrite),
    }
}

/// A model of the entries under the home directory: each path maps to its
/// kind and, for a link, the path it points at.
pub type HomeTree = Map<Seq<Seq<char>>, (TargetKind, Seq<Seq<char>>)>;

/// The kind of whatever stands at `target`.
pub open spec fn kind_at(home: HomeTree, target: Seq<Seq<char>>) -> TargetKind {
    if home.contains_key(target) {
        home[target].0
    } else {
        TargetKind::Absent
    }
}

/// The home tree after linking `target` to `dest`, by the decision for the
/// kind that stands there.
pub open spec fn link_one(home: HomeTree, target: Seq<Seq<char>>, dest: Seq<Seq<char>>) -> HomeTree {
    match link_decision(kind_at(home, target)) {
        Ok(_) => home.insert(target, (TargetKind::Symlink, dest)),
        Err(_) => home,
    }
}

/// The home tree after linking each `(target, dest)` pair in turn.
pub open spec fn link_all(home: HomeTree, links: Seq<(Seq<Seq<char>>, Seq<Seq<char>>)>) -> HomeTree
    decreases links.len(),
{
    if links.len() == 0 {
        home
    } else {
        let (target, dest) = links.last();
        link_one(link_all(home, links.drop_last()), target, dest)
    }
}

/// The destination of the last link to `target`, if any.
pub open spec fn last_dest(links: Seq<(Seq<Seq<char>>, Seq<Seq<char>>)>, target: Seq<Seq<char>>) -> Option<Seq<Seq<char>>>
    decreases links.len(),
{
    if links.len() == 0 {
        None
    } else if links.last().0 == target {
        Some(links.last().1)
    } else {
        last_dest(links.drop_last(), target)
    }
}

/// The links that planned steps make: each step's link target with the
/// output file it points at.
pub open spec fn step_links(steps: Seq<Step>) -> Seq<(Seq<Seq<char>>, Seq<Seq<char>>)> {
    steps.map_values(|s: Step| (s.link.deep_view(), s.output.deep_view()))
}

/// Whether `steps` are the steps planned for `files`, one for one.
pub open spec fn plans_files(steps: Seq<Step>, files: Seq<Seq<Seq<char>>>, layout: Layout) -> bool {
    steps.len() == files.len() && forall|i: int| 0 <= i < files.len() ==> step_for(#[trigger] steps[i], files[i], layout)
}

/// A stale regular file at a link target is removed and replaced by a link
/// to the materialized file.
pub proof fn lemma_link_replaces_stale_file(home: HomeTree, target: Seq<Seq<char>>, dest: Seq<Seq<char>>)
    requires
        kind_at(home, target) == TargetKind::File,
    ensures
        link_decision(kind_at(home, target)) == Ok::<LinkAction, DeployError>(LinkAction::ReplaceFile),
        link_one(home, target, dest)[target] == (TargetKind::Symlink, dest),
        forall|p: Seq<Seq<char>>| p != target ==> link_one(home, target, dest).contains_key(p) == home.contains_key(p)
            && (home.contains_key(p) ==> #[trigger] link_one(home, target, dest)[p] == home[p]),
{
}

/// Entry by entry, what a run of links leaves: a directory with entries is
/// kept, a target that is linked points at the last output given for it,
/// and every other entry is as it was.
pub proof fn lemma_link_all_entries(home: HomeTree, links: Seq<(Seq<Seq<char>>, Seq<Seq<char>>)>, p: Seq<Seq<char>>)
    ensures
        kind_at(home, p) == TargetKind::NonEmptyDir ==> kind_at(link_all(home, links), p) == TargetKind::NonEmptyDir
            && link_all(home, links)[p] == home[p],
        kind_at(home, p) != TargetKind::NonEmptyDir ==> match last_dest(links, p) {
            Some(d) => link_all(home, links).contains_key(p) && link_all(home, links)[p] == (TargetKind::Symlink, d),
            None => link_all(home, links).contains_key(p) == home.contains_key(p)
                && (home.contains_key(p) ==> link_all(home, links)[p] == home[p]),
        },
    decreases links.len(),
{
    if links.len() > 0 {
        lemma_link_all_entries(home, links.drop_last(), p);
    }
}

/// Linking is idempotent: a second run of the same links leaves the home
/// tree as the first run left it, with no link added or lost.
pub proof fn lemma_link_all_idempotent(home: HomeTree, links: Seq<(Seq<Seq<char>>, Seq<Seq<char>>)>)
    ensures
        link_all(link_all(home, links), links) == link_all(home, links),
{
    let once = link_all(home, links);
    let twice = link_all(once, links);
    assert forall|p: Seq<Seq<char>>| #[trigger] twice.contains_key(p) == once.contains_key(p)
        && (once.contains_key(p) ==> twice[p] == once[p]) by {
        lemma_link_all_entries(home, links, p);
        lemma_link_all_entries(once, links, p);
    }
    assert(twice =~= once);
}

/// Deploying the same source files twice with the same layout plans the
/// same steps (same outputs, same links, same choice of render or copy),
/// and the second run of links leaves the home tree as the first left it.
pub proof fn lemma_redeploy_idempotent(
    files: Seq<Seq<Seq<char>>>,
    layout: Layout,
    first: Seq<Step>,
    second: Seq<Step>,
    home: HomeTree,
)
    requires
        plans_files(first, files, layout),
        plans_files(second, files, layout),
    ensures
        forall|i: int| 0 <= i < first.len() ==> {
            &&& (#[trigger] first[i]).output.deep_view() == second[i].output.deep_view()
            &&& first[i].link.deep_view() == second[i].link.deep_view()
            &&& first[i].render == second[i].render
        },
        step_links(second) == step_links(first),
        link_all(link_all(home, step_links(first)), step_links(second)) == link_all(home, step_links(first)),
{
    assert forall|i: int| 0 <= i < first.len() implies {
        &&& (#[trigger] first[i]).output.deep_view() == second[i].output.deep_view()
        &&& first[i].link.deep_view() == second[i].link.deep_view()
        &&& first[i].render == second[i].render
    } by {
        assert(step_for(first[i], files[i], layout));
        assert(step_for(second[i], files[i], layout));
    }
    assert(step_links(second) =~= step_links(first));
    lemma_link_all_idempotent(home, step_links(first));
}

} // verus!
