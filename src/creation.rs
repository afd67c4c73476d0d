//! The order of a creation batch.
use vstd::prelude::*;

verus! {

/// The text of each path of a list.
pub open spec fn texts(v: Seq<String>) -> Seq<Seq<char>> {
    v.map_values(|s: String| s@)
}

/// The order in which a batch is processed: last listed path first.
pub open spec fn processing_order<A>(paths: Seq<A>) -> Seq<A> {
    Seq::new(paths.len(), |i: int| paths[paths.len() - 1 - i])
}

/// The paths of a creation batch in the order they are created: taken from
/// the end of the list, so the last listed path comes first.
pub fn creation_order(paths: Vec<String>) -> (r: Vec<String>)
    ensures
        r@ == processing_order(paths@),
{
    let ghost given = paths@;
    let mut rest = paths;
    let mut r: Vec<String> = Vec::new();
    while rest.len() > 0
        invariant
            rest@.len() + r@.len() == given.len(),
            forall|i: int| 0 <= i < rest@.len() ==> rest@[i] == given[i],
            forall|i: int| 0 <= i < r@.len() ==> r@[i] == given[given.len() - 1 - i],
        decreases rest@.len(),
    {
        let p = rest.pop().unwrap();
        r.push(p);
    }
    assert(r@ =~= processing_order(given));
    r
}

/// The file system primitive that creates one path of a batch.
#[derive(Clone, Copy, Debug, PartialEq, Eq, Structural)]
pub enum CreateCall {
    /// Create the directory and every missing ancestor; an existing directory is no error.
    WithParents,
    /// Create the directory alone; its parent must exist and it must not.
    Single,
}

/// The primitive a batch uses: with parents where the batch creates them.
pub open spec fn call_for(recursive: bool) -> CreateCall {
    if recursive {
        CreateCall::WithParents
    } else {
        CreateCall::Single
    }
}

/// The primitive that creates each path of a batch.
pub fn create_call(recursive: bool) -> (r: CreateCall)
    ensures
        r == call_for(recursive),
{
    if recursive {
        CreateCall::WithParents
    } else {
        CreateCall::Single
    }
}

} // verus!
