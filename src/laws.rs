//! What creation and removal batches leave behind in the model file system.
use vstd::prelude::*;
use crate::creation::{call_for, processing_order};
use crate::outcome::FailureKind;
use crate::model::{
    create_dir, create_dir_all, create_with, creation_run, lineage, parent_present, remove_dir, removal_run,
    removal_succeeds, removal_reaches, walk_measure, closed, creates, Dirs,
};
use crate::path::{ancestors, lemma_parent_shorter, parent, trimmed};
use crate::removal::{after_outcome, initial, next_step, RemovalView};

verus! {

proof fn lemma_creation_grows(fs: Dirs, order: Seq<Seq<char>>, recursive: bool)
    ensures
        fs.subset_of(creation_run(fs, order, recursive)),
    decreases order.len(),
{
    if order.len() > 0 {
        let next = create_with(fs, order[0], call_for(recursive)).0;
        lemma_creation_grows(next, order.drop_first(), recursive);
    }
}

proof fn lemma_recursive_creation(fs: Dirs, order: Seq<Seq<char>>)
    ensures
        forall|i: int|
            0 <= i < order.len() ==> lineage(#[trigger] order[i]).subset_of(
                creation_run(fs, order, true),
            ),
    decreases order.len(),
{
    if order.len() > 0 {
        let next = create_dir_all(fs, order[0]).0;
        let rest = order.drop_first();
        lemma_recursive_creation(next, rest);
        lemma_creation_grows(next, rest, true);
        assert forall|i: int| 0 <= i < order.len() implies lineage(#[trigger] order[i]).subset_of(
            creation_run(fs, order, true),
        ) by {
            if i > 0 {
                assert(order[i] == rest[i - 1]);
            }
        }
    }
}

proof fn lemma_plain_creation(fs: Dirs, order: Seq<Seq<char>>)
    requires
        forall|i: int|
            0 <= i < order.len() ==> (#[trigger] order[i]).len() > 0 && parent_present(fs, order[i]),
    ensures
        forall|i: int| 0 <= i < order.len() ==> creation_run(fs, order, false).contains(#[trigger] order[i]),
    decreases order.len(),
{
    if order.len() > 0 {
        let next = create_dir(fs, order[0]).0;
        let rest = order.drop_first();
        assert(fs.subset_of(next));
        assert forall|i: int| 0 <= i < rest.len() implies (#[trigger] rest[i]).len() > 0 && parent_present(next, rest[i]) by {
            assert(rest[i] == order[i + 1]);
        }
        lemma_plain_creation(next, rest);
        lemma_creation_grows(next, rest, false);
        assert forall|i: int| 0 <= i < order.len() implies creation_run(fs, order, false).contains(#[trigger] order[i]) by {
            if i > 0 {
                assert(order[i] == rest[i - 1]);
            }
        }
    }
}

/// Recursive creation leaves every listed path, and each of its ancestors but
/// the root, existing, whatever existed before.
pub proof fn law_recursive_creation(fs: Dirs, paths: Seq<Seq<char>>)
    requires
        forall|i: int| 0 <= i < paths.len() ==> (#[trigger] paths[i]).len() > 0,
    ensures
        forall|i: int| #![trigger paths[i]]
            0 <= i < paths.len() ==> {
                let after = creation_run(fs, processing_order(paths), true);
                &&& after.contains(paths[i])
                &&& forall|j: int|
                    0 <= j < ancestors(paths[i]).len() && (#[trigger] ancestors(paths[i])[j]).len() > 0
                        ==> after.contains(ancestors(paths[i])[j])
            },
{
    let order = processing_order(paths);
    lemma_recursive_creation(fs, order);
    assert forall|i: int| #![trigger paths[i]] 0 <= i < paths.len() implies {
        let after = creation_run(fs, order, true);
        &&& after.contains(paths[i])
        &&& forall|j: int|
            0 <= j < ancestors(paths[i]).len() && (#[trigger] ancestors(paths[i])[j]).len() > 0
                ==> after.contains(ancestors(paths[i])[j])
    } by {
        let k = paths.len() - 1 - i;
        assert(order[k] == paths[i]);
        assert(lineage(paths[i]).contains(paths[i]));
        assert forall|j: int|
            0 <= j < ancestors(paths[i]).len() && (#[trigger] ancestors(paths[i])[j]).len() > 0
                implies lineage(paths[i]).contains(ancestors(paths[i])[j]) by {
            assert(ancestors(paths[i]).contains(ancestors(paths[i])[j]));
        }
    }
}

/// Creation without parents, where each listed path's parent exists, leaves
/// every listed path existing.
pub proof fn law_plain_creation(fs: Dirs, paths: Seq<Seq<char>>)
    requires
        forall|i: int|
            0 <= i < paths.len() ==> (#[trigger] paths[i]).len() > 0 && parent_present(fs, paths[i]),
    ensures
        forall|i: int|
            0 <= i < paths.len() ==> creation_run(fs, processing_order(paths), false).contains(
                #[trigger] paths[i],
            ),
{
    let order = processing_order(paths);
    assert forall|k: int| 0 <= k < order.len() implies (#[trigger] order[k]).len() > 0 && parent_present(fs, order[k]) by {
        assert(order[k] == paths[paths.len() - 1 - k]);
    }
    lemma_plain_creation(fs, order);
    assert forall|i: int| 0 <= i < paths.len() implies creation_run(fs, order, false).contains(#[trigger] paths[i]) by {
        assert(order[paths.len() - 1 - i] == paths[i]);
    }
}

proof fn lemma_creation_bound(fs: Dirs, order: Seq<Seq<char>>, recursive: bool)
    ensures
        forall|x: Seq<char>|
            #[trigger] creation_run(fs, order, recursive).contains(x) ==> fs.contains(x) || exists|i: int|
                0 <= i < order.len() && creates(#[trigger] order[i], x, recursive),
    decreases order.len(),
{
    if order.len() > 0 {
        let next = create_with(fs, order[0], call_for(recursive)).0;
        let rest = order.drop_first();
        lemma_creation_bound(next, rest, recursive);
        assert forall|x: Seq<char>| #[trigger] creation_run(fs, order, recursive).contains(x) implies fs.contains(x)
            || exists|i: int| 0 <= i < order.len() && creates(#[trigger] order[i], x, recursive) by {
            assert(creation_run(fs, order, recursive) == creation_run(next, rest, recursive));
            assert(creation_run(next, rest, recursive).contains(x));
            if !fs.contains(x) {
                if next.contains(x) {
                    assert(creates(order[0], x, recursive));
                } else {
                    let i = choose|i: int| 0 <= i < rest.len() && creates(#[trigger] rest[i], x, recursive);
                    assert(order[i + 1] == rest[i]);
                    assert(creates(order[i + 1], x, recursive));
                }
            }
        }
    }
}

proof fn lemma_closed_creation(fs: Dirs, order: Seq<Seq<char>>)
    requires
        closed(fs),
        forall|i: int| 0 <= i < order.len() ==> fs.contains(#[trigger] order[i]),
    ensures
        creation_run(fs, order, true) == fs,
    decreases order.len(),
{
    if order.len() > 0 {
        let p = order[0];
        assert(fs.union(lineage(p)) =~= fs) by {
            assert forall|x: Seq<char>| lineage(p).contains(x) implies fs.contains(x) by {
                if x != p {
                    let j = choose|j: int| 0 <= j < ancestors(p).len() && ancestors(p)[j] == x;
                    assert(ancestors(p)[j].len() > 0);
                }
            }
        }
        let rest = order.drop_first();
        assert forall|i: int| 0 <= i < rest.len() implies fs.contains(#[trigger] rest[i]) by {
            assert(rest[i] == order[i + 1]);
        }
        lemma_closed_creation(fs, rest);
    }
}

/// A creation batch removes no directory and adds only listed paths, and,
/// where it creates parents, their ancestors.
pub proof fn law_creation_bounds(fs: Dirs, paths: Seq<Seq<char>>, recursive: bool)
    ensures
        fs.subset_of(creation_run(fs, processing_order(paths), recursive)),
        forall|x: Seq<char>|
            #[trigger] creation_run(fs, processing_order(paths), recursive).contains(x) ==> fs.contains(x)
                || exists|i: int| 0 <= i < paths.len() && creates(#[trigger] paths[i], x, recursive),
{
    let order = processing_order(paths);
    lemma_creation_grows(fs, order, recursive);
    lemma_creation_bound(fs, order, recursive);
    assert forall|x: Seq<char>| #[trigger] creation_run(fs, order, recursive).contains(x) implies fs.contains(x)
        || exists|i: int| 0 <= i < paths.len() && creates(#[trigger] paths[i], x, recursive) by {
        if !fs.contains(x) {
            let k = choose|k: int| 0 <= k < order.len() && creates(#[trigger] order[k], x, recursive);
            assert(paths[paths.len() - 1 - k] == order[k]);
        }
    }
}

/// Creation without parents, where each listed path's parent exists, adds
/// exactly the listed paths.
pub proof fn law_plain_creation_exact(fs: Dirs, paths: Seq<Seq<char>>)
    requires
        forall|i: int|
            0 <= i < paths.len() ==> (#[trigger] paths[i]).len() > 0 && parent_present(fs, paths[i]),
    ensures
        creation_run(fs, processing_order(paths), false) == fs.union(paths.to_set()),
{
    let after = creation_run(fs, processing_order(paths), false);
    law_plain_creation(fs, paths);
    law_creation_bounds(fs, paths, false);
    assert forall|x: Seq<char>| after.contains(x) <==> fs.union(paths.to_set()).contains(x) by {
        if paths.to_set().contains(x) {
            let i = choose|i: int| 0 <= i < paths.len() && paths[i] == x;
            assert(after.contains(paths[i]));
        }
        if after.contains(x) && !fs.contains(x) {
            let i = choose|i: int| 0 <= i < paths.len() && creates(#[trigger] paths[i], x, false);
            assert(paths.to_set().contains(paths[i]));
        }
    }
    assert(after =~= fs.union(paths.to_set()));
}

/// Recursive creation of paths that all exist already, on a file system where
/// every directory's ancestors exist, changes nothing.
pub proof fn law_recursive_creation_idempotent(fs: Dirs, paths: Seq<Seq<char>>)
    requires
        closed(fs),
        forall|i: int| 0 <= i < paths.len() ==> fs.contains(#[trigger] paths[i]),
    ensures
        creation_run(fs, processing_order(paths), true) == fs,
{
    let order = processing_order(paths);
    assert forall|k: int| 0 <= k < order.len() implies fs.contains(#[trigger] order[k]) by {
        assert(order[k] == paths[paths.len() - 1 - k]);
    }
    lemma_closed_creation(fs, order);
}

/// The directories that a walk from `w` removes, nearest first: each
/// ancestor without its surrounding white space.
pub open spec fn walk_targets(w: Seq<char>) -> Seq<Seq<char>> {
    ancestors(w).map_values(|a: Seq<char>| trimmed(a))
}

proof fn lemma_difference_cons(fs: Dirs, t: Seq<Seq<char>>, j: int)
    requires
        0 <= j < t.len(),
    ensures
        fs.difference(t.subrange(0, j + 1).to_set()) == fs.remove(t[0]).difference(
            t.drop_first().subrange(0, j).to_set(),
        ),
{
    let a = t.subrange(0, j + 1);
    let b = t.drop_first().subrange(0, j);
    assert forall|x: Seq<char>| a.to_set().contains(x) <==> (x == t[0] || b.to_set().contains(x)) by {
        if a.to_set().contains(x) {
            let n = choose|n: int| 0 <= n < a.len() && a[n] == x;
            if n > 0 {
                assert(b[n - 1] == x);
            }
        }
        if b.to_set().contains(x) {
            let n = choose|n: int| 0 <= n < b.len() && b[n] == x;
            assert(a[n + 1] == x);
        }
        if x == t[0] {
            assert(a[0] == x);
        }
    }
    assert(fs.difference(a.to_set()) =~= fs.remove(t[0]).difference(b.to_set()));
}

/// Removal of a single path, without parents, where it names an empty
/// directory, removes that directory and nothing else.
pub proof fn law_plain_removal(fs: Dirs, d: Seq<char>)
    requires
        removal_succeeds(fs, d),
    ensures
        removal_run(fs, initial(seq![d], false)) == fs.remove(trimmed(d)),
{
    let s0 = initial(seq![d], false);
    let (req, s1) = next_step(s0);
    assert(req == Some(d));
    let s2 = after_outcome(s1, true);
    assert(s2.walk is None && s2.pending.len() == 0);
    reveal_with_fuel(removal_run, 2);
}

/// What a recursive walk from `w` leaves: with an empty queue, the targets of
/// the first `k` ancestors of `w` are removed, each of them an existing empty
/// directory when its turn came, and the walk stopped at the next ancestor,
/// whose removal fails in the end state.
proof fn lemma_walk(fs: Dirs, w: Seq<char>, current: Option<Seq<char>>) -> (k: int)
    ensures
        0 <= k <= ancestors(w).len(),
        ({
            let s = RemovalView { pending: Seq::empty(), walk: Some(w), current, recursive: true };
            let after = removal_run(fs, s);
            &&& after == fs.difference(walk_targets(w).subrange(0, k).to_set())
            &&& forall|j: int|
                0 <= j < k ==> removal_succeeds(
                    fs.difference(walk_targets(w).subrange(0, j).to_set()),
                    #[trigger] ancestors(w)[j],
                )
            &&& k < ancestors(w).len() ==> !removal_succeeds(after, ancestors(w)[k])
        }),
    decreases w.len(),
{
    let s = RemovalView { pending: Seq::empty(), walk: Some(w), current, recursive: true };
    lemma_parent_shorter(w);
    match parent(w) {
        None => {
            assert(ancestors(w) =~= Seq::<Seq<char>>::empty());
            assert(removal_run(fs, s) == fs);
            assert(fs.difference(walk_targets(w).subrange(0, 0).to_set()) =~= fs);
            0
        },
        Some(q) => {
            assert(ancestors(w) == seq![q] + ancestors(q));
            let tw = walk_targets(w);
            let tq = walk_targets(q);
            assert(tw.drop_first() =~= tq);
            assert(tw[0] == trimmed(q));
            let (req, s1) = next_step(s);
            assert(req == Some(q));
            if removal_succeeds(fs, q) {
                let fs2 = fs.remove(trimmed(q));
                let s2 = after_outcome(s1, true);
                assert(s2 == RemovalView { pending: Seq::empty(), walk: Some(q), current: Some(q), recursive: true });
                let k2 = lemma_walk(fs2, q, Some(q));
                assert(removal_run(fs, s) == removal_run(fs2, s2));
                let k = k2 + 1;
                lemma_difference_cons(fs, tw, k2);
                assert forall|j: int| 0 <= j < k implies removal_succeeds(
                    fs.difference(tw.subrange(0, j).to_set()),
                    #[trigger] ancestors(w)[j],
                ) by {
                    if j == 0 {
                        assert(fs.difference(tw.subrange(0, 0).to_set()) =~= fs);
                    } else {
                        lemma_difference_cons(fs, tw, j - 1);
                        assert(ancestors(w)[j] == ancestors(q)[j - 1]);
                    }
                }
                if k < ancestors(w).len() {
                    assert(ancestors(w)[k] == ancestors(q)[k2]);
                }
                k
            } else {
                let s2 = after_outcome(s1, false);
                assert(remove_dir(fs, q).0 == fs && remove_dir(fs, q).1 is Err);
                let (req2, s3) = next_step(s2);
                assert(req2 is None);
                assert(removal_run(fs, s) == removal_run(fs, s2));
                assert(removal_run(fs, s2) == fs);
                assert(fs.difference(tw.subrange(0, 0).to_set()) =~= fs);
                assert(ancestors(w)[0] == q);
                0
            }
        },
    }
}

/// Removal of a single path with parents, where it names an empty directory,
/// removes that directory, then each ancestor in turn (each without its
/// surrounding white space) while it exists and is left empty, and stops at the
/// first ancestor that is absent or still holds entries.
pub proof fn law_recursive_removal(fs: Dirs, d: Seq<char>)
    requires
        removal_succeeds(fs, d),
    ensures
        exists|k: int| #![trigger walk_targets(d).subrange(0, k)]
            0 <= k <= ancestors(d).len() && {
                let before = fs.remove(trimmed(d));
                let after = removal_run(fs, initial(seq![d], true));
                &&& after == before.difference(walk_targets(d).subrange(0, k).to_set())
                &&& forall|j: int|
                    0 <= j < k ==> removal_succeeds(
                        before.difference(walk_targets(d).subrange(0, j).to_set()),
                        #[trigger] ancestors(d)[j],
                    )
                &&& k < ancestors(d).len() ==> !removal_succeeds(after, ancestors(d)[k])
            },
{
    let s0 = initial(seq![d], true);
    let (req, s1) = next_step(s0);
    assert(req == Some(d));
    assert(s1.pending =~= Seq::<Seq<char>>::empty());
    let s2 = after_outcome(s1, true);
    assert(s2 == RemovalView { pending: Seq::empty(), walk: Some(d), current: Some(d), recursive: true });
    let k = lemma_walk(fs.remove(trimmed(d)), d, Some(d));
    assert(removal_run(fs, s0) == removal_run(fs.remove(trimmed(d)), s2));
}

spec fn state_reaches(s: RemovalView, x: Seq<char>) -> bool {
    (exists|i: int| 0 <= i < s.pending.len() && removal_reaches(#[trigger] s.pending[i], x, s.recursive))
        || (s.walk is Some && exists|j: int|
        0 <= j < ancestors(s.walk->0).len() && x == trimmed(#[trigger] ancestors(s.walk->0)[j]))
}

proof fn lemma_removal_bound(fs: Dirs, s: RemovalView)
    requires
        s.walk is Some ==> s.recursive,
    ensures
        removal_run(fs, s).subset_of(fs),
        forall|x: Seq<char>|
            fs.contains(x) && !(#[trigger] removal_run(fs, s).contains(x)) ==> state_reaches(s, x),
    decreases s.pending.len(), walk_measure(s.walk),
{
    let (req, s1) = next_step(s);
    if let Some(p) = req {
        if s.walk is Some {
            lemma_parent_shorter(s.walk->0);
        }
        let (fs2, res) = remove_dir(fs, p);
        let t = after_outcome(s1, res is Ok);
        assert(fs2.subset_of(fs));
        lemma_removal_bound(fs2, t);
        assert(removal_run(fs, s) == removal_run(fs2, t));
        assert forall|x: Seq<char>| fs.contains(x) && !(#[trigger] removal_run(fs, s).contains(x)) implies state_reaches(s, x) by {
            if s.walk is Some && parent(s.walk->0) is Some {
                let w = s.walk->0;
                let q = parent(w)->0;
                assert(ancestors(w) == seq![q] + ancestors(q));
                assert(p == q);
                if !fs2.contains(x) {
                    assert(x == trimmed(ancestors(w)[0]));
                } else {
                    assert(state_reaches(t, x));
                    if exists|i: int| 0 <= i < t.pending.len() && removal_reaches(#[trigger] t.pending[i], x, t.recursive) {
                        let i = choose|i: int| 0 <= i < t.pending.len() && removal_reaches(#[trigger] t.pending[i], x, t.recursive);
                        assert(s.pending[i] == t.pending[i]);
                    } else {
                        let j = choose|j: int| 0 <= j < ancestors(q).len() && x == trimmed(#[trigger] ancestors(q)[j]);
                        assert(ancestors(w)[j + 1] == ancestors(q)[j]);
                    }
                }
            } else {
                let n = s.pending.len() - 1;
                assert(p == s.pending[n]);
                if !fs2.contains(x) {
                    assert(removal_reaches(s.pending[n], x, s.recursive));
                } else {
                    assert(state_reaches(t, x));
                    if exists|i: int| 0 <= i < t.pending.len() && removal_reaches(#[trigger] t.pending[i], x, t.recursive) {
                        let i = choose|i: int| 0 <= i < t.pending.len() && removal_reaches(#[trigger] t.pending[i], x, t.recursive);
                        assert(s.pending[i] == t.pending[i]);
                    } else {
                        let j = choose|j: int| 0 <= j < ancestors(p).len() && x == trimmed(#[trigger] ancestors(p)[j]);
                        assert(removal_reaches(s.pending[n], x, s.recursive));
                    }
                }
            }
        }
    }
}

/// A removal batch creates no directory and removes only listed paths, each
/// without its surrounding white space, and, where it removes parents, their
/// ancestors so trimmed.
pub proof fn law_removal_bounds(fs: Dirs, paths: Seq<Seq<char>>, recursive: bool)
    ensures
        removal_run(fs, initial(paths, recursive)).subset_of(fs),
        forall|x: Seq<char>|
            fs.contains(x) && !(#[trigger] removal_run(fs, initial(paths, recursive)).contains(x))
                ==> exists|i: int| 0 <= i < paths.len() && removal_reaches(#[trigger] paths[i], x, recursive),
{
    lemma_removal_bound(fs, initial(paths, recursive));
}

proof fn lemma_insert_empty(fs: Dirs, s: RemovalView, i: int)
    requires
        0 <= i <= s.pending.len(),
    ensures
        removal_run(fs, RemovalView { pending: s.pending.insert(i, Seq::empty()), ..s }) == removal_run(fs, s),
    decreases s.pending.len(), walk_measure(s.walk),
{
    let e = Seq::<char>::empty();
    let s_ = RemovalView { pending: s.pending.insert(i, e), ..s };
    if s.walk is Some && parent(s.walk->0) is Some {
        lemma_parent_shorter(s.walk->0);
        let (r, s1) = next_step(s);
        let (fs2, res) = remove_dir(fs, r->0);
        let t = after_outcome(s1, res is Ok);
        assert(after_outcome(next_step(s_).1, res is Ok) == RemovalView { pending: t.pending.insert(i, e), ..t });
        lemma_insert_empty(fs2, t, i);
    } else if i == s.pending.len() {
        assert(s_.pending.last() == e);
        assert(s_.pending.drop_last() =~= s.pending);
        let t_ = after_outcome(next_step(s_).1, false);
        assert(removal_run(fs, s_) == removal_run(fs, t_));
        assert(next_step(t_) == next_step(s));
    } else {
        assert(s_.pending.last() == s.pending.last());
        assert(s_.pending.drop_last() =~= s.pending.drop_last().insert(i, e));
        let (r, s1) = next_step(s);
        let (fs2, res) = remove_dir(fs, r->0);
        let t = after_outcome(s1, res is Ok);
        assert(after_outcome(next_step(s_).1, res is Ok) == RemovalView { pending: t.pending.insert(i, e), ..t });
        lemma_insert_empty(fs2, t, i);
    }
}

/// An empty path anywhere in a removal batch fails as an invalid target,
/// changes no directory, and the rest of the batch runs as it would without it.
pub proof fn law_empty_path_skipped(fs: Dirs, paths: Seq<Seq<char>>, i: int, recursive: bool)
    requires
        0 <= i <= paths.len(),
    ensures
        remove_dir(fs, Seq::empty()) == (fs, Err::<(), FailureKind>(FailureKind::InvalidTarget)),
        removal_run(fs, initial(paths.insert(i, Seq::empty()), recursive)) == removal_run(
            fs,
            initial(paths, recursive),
        ),
{
    lemma_insert_empty(fs, initial(paths, recursive), i);
}

} // verus!
