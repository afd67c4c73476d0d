//! The file system as a set of directory paths, with the primitives that a
//! batch calls and the result of whole batches.
use vstd::prelude::*;
use crate::creation::{call_for, CreateCall};
use crate::outcome::FailureKind;
use crate::path::{ancestors, lemma_parent_shorter, parent, trimmed};
use crate::removal::{after_outcome, next_step, RemovalView};

verus! {

/// A file system seen as the set of the directories that exist, by path.
pub type Dirs = Set<Seq<char>>;

/// Every ancestor (but the root) of each directory of `fs` is in `fs`, as on
/// a real file system.
pub open spec fn closed(fs: Dirs) -> bool {
    forall|d: Seq<char>, j: int|
        fs.contains(d) && 0 <= j < ancestors(d).len() && (#[trigger] ancestors(d)[j]).len() > 0
            ==> fs.contains(ancestors(d)[j])
}

/// `x` is among the directories that creating `p` may add.
pub open spec fn creates(p: Seq<char>, x: Seq<char>, recursive: bool) -> bool {
    if recursive {
        lineage(p).contains(x)
    } else {
        x == p
    }
}

/// `x` is among the directories that the removal of `p` may take away: `p`
/// without its surrounding white space, and, where parents are removed too,
/// any of its ancestors so trimmed.
pub open spec fn removal_reaches(p: Seq<char>, x: Seq<char>, recursive: bool) -> bool {
    x == trimmed(p) || (recursive && exists|j: int|
        0 <= j < ancestors(p).len() && x == trimmed(#[trigger] ancestors(p)[j]))
}

/// Some directory of `fs` has `d` as its parent.
pub open spec fn has_child(fs: Dirs, d: Seq<char>) -> bool {
    exists|x: Seq<char>| #[trigger] fs.contains(x) && parent(x) == Some(d)
}

/// `d` is an existing empty directory, which the empty-directory-only primitive removes.
pub open spec fn removable(fs: Dirs, d: Seq<char>) -> bool {
    d.len() > 0 && fs.contains(d) && !has_child(fs, d)
}

/// The parent that creating `p` without parents needs is there: `p` has none,
/// or it is the root (empty), or it exists.
pub open spec fn parent_present(fs: Dirs, p: Seq<char>) -> bool {
    match parent(p) {
        None => true,
        Some(q) => q.len() == 0 || fs.contains(q),
    }
}

/// The removal of `p` succeeds: `p` is not empty, and without its surrounding
/// white space it names an existing empty directory.
pub open spec fn removal_succeeds(fs: Dirs, p: Seq<char>) -> bool {
    p.len() > 0 && removable(fs, trimmed(p))
}

/// Removal of an empty directory, named by `p` without its surrounding white space.
pub open spec fn remove_dir(fs: Dirs, p: Seq<char>) -> (Dirs, Result<(), FailureKind>) {
    let t = trimmed(p);
    if p.len() == 0 {
        (fs, Err(FailureKind::InvalidTarget))
    } else if t.len() == 0 || !fs.contains(t) {
        (fs, Err(FailureKind::NotFound))
    } else if has_child(fs, t) {
        (fs, Err(FailureKind::NotEmpty))
    } else {
        (fs.remove(t), Ok(()))
    }
}

/// Creation of one directory whose parent must exist.
pub open spec fn create_dir(fs: Dirs, p: Seq<char>) -> (Dirs, Result<(), FailureKind>) {
    if p.len() == 0 {
        (fs, Err(FailureKind::NotFound))
    } else if fs.contains(p) {
        (fs, Err(FailureKind::AlreadyExists))
    } else if !parent_present(fs, p) {
        (fs, Err(FailureKind::NotFound))
    } else {
        (fs.insert(p), Ok(()))
    }
}

/// `p` and its ancestors, the empty root left out.
pub open spec fn lineage(p: Seq<char>) -> Dirs {
    Set::new(|x: Seq<char>| x.len() > 0 && (x == p || ancestors(p).contains(x)))
}

/// Creation of a directory together with every missing ancestor.
pub open spec fn create_dir_all(fs: Dirs, p: Seq<char>) -> (Dirs, Result<(), FailureKind>) {
    (fs.union(lineage(p)), Ok(()))
}

/// One creation by the primitive `call`.
pub open spec fn create_with(fs: Dirs, p: Seq<char>, call: CreateCall) -> (Dirs, Result<(), FailureKind>) {
    match call {
        CreateCall::WithParents => create_dir_all(fs, p),
        CreateCall::Single => create_dir(fs, p),
    }
}

/// The directories after a creation batch that creates the paths of `order` in turn.
pub open spec fn creation_run(fs: Dirs, order: Seq<Seq<char>>, recursive: bool) -> Dirs
    decreases order.len(),
{
    if order.len() == 0 {
        fs
    } else {
        let next = create_with(fs, order[0], call_for(recursive)).0;
        creation_run(next, order.drop_first(), recursive)
    }
}

pub open spec fn walk_measure(w: Option<Seq<char>>) -> nat {
    match w {
        Some(p) => p.len() + 1,
        None => 0,
    }
}

#[via_fn]
proof fn removal_run_decreases(fs: Dirs, s: RemovalView) {
    if s.walk is Some {
        lemma_parent_shorter(s.walk->0);
    }
}

/// The directories after a removal batch run from state `s`, each path it
/// hands out removed with `remove_dir` and the outcome recorded.
pub open spec fn removal_run(fs: Dirs, s: RemovalView) -> Dirs
    decreases s.pending.len(), walk_measure(s.walk),
    via removal_run_decreases
{
    let (req, s1) = next_step(s);
    match req {
        None => fs,
        Some(p) => {
            let (fs2, res) = remove_dir(fs, p);
            removal_run(fs2, after_outcome(s1, res is Ok))
        },
    }
}

} // verus!
