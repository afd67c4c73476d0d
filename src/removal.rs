//! A removal batch as a state machine: it hands out the next path to remove
//! and is told whether the removal succeeded.
use vstd::prelude::*;
use crate::creation::texts;
use crate::path::{parent, parent_of};

verus! {

/// Where a removal batch stands.
pub struct RemovalView {
    /// Paths not yet taken; the next is taken from the end.
    pub pending: Seq<Seq<char>>,
    /// The path whose parent is to be removed next, if any.
    pub walk: Option<Seq<char>>,
    /// The path last handed out for removal.
    pub current: Option<Seq<char>>,
    /// Whether each removed directory's ancestors are removed after it.
    pub recursive: bool,
}

/// The state of a batch before its first path.
pub open spec fn initial(paths: Seq<Seq<char>>, recursive: bool) -> RemovalView {
    RemovalView { pending: paths, walk: None, current: None, recursive }
}

/// The next path to remove and the state it leaves: the parent of the path
/// being walked, where there is one; else the last pending path; else none.
pub open spec fn next_step(s: RemovalView) -> (Option<Seq<char>>, RemovalView) {
    if s.walk is Some && parent(s.walk->0) is Some {
        let q = parent(s.walk->0)->0;
        (Some(q), RemovalView { walk: None, current: Some(q), ..s })
    } else if s.pending.len() > 0 {
        let p = s.pending.last();
        (Some(p), RemovalView { pending: s.pending.drop_last(), walk: None, current: Some(p), ..s })
    } else {
        (None, RemovalView { walk: None, current: None, ..s })
    }
}

/// The state after the removal of the current path succeeded or failed: a
/// success in a recursive batch goes on with the current path's parent.
pub open spec fn after_outcome(s: RemovalView, succeeded: bool) -> RemovalView {
    RemovalView { walk: if succeeded && s.recursive { s.current } else { None }, ..s }
}

/// A removal batch: hands out, one at a time, the paths to remove, and is told
/// of each outcome.
pub struct Removal {
    pending: Vec<String>,
    walk: Option<String>,
    current: Option<String>,
    recursive: bool,
}

/// The text of an optional path.
pub open spec fn text_of(o: Option<String>) -> Option<Seq<char>> {
    match o {
        Some(s) => Some(s@),
        None => None,
    }
}

impl View for Removal {
    type V = RemovalView;

    closed spec fn view(&self) -> RemovalView {
        RemovalView {
            pending: texts(self.pending@),
            walk: text_of(self.walk),
            current: text_of(self.current),
            recursive: self.recursive,
        }
    }
}

impl Removal {
    /// A batch over `paths`, none of them taken yet.
    pub fn new(paths: Vec<String>, recursive: bool) -> (r: Removal)
        ensures
            r@ == initial(texts(paths@), recursive),
    {
        Removal { pending: paths, walk: None, current: None, recursive }
    }

    /// The next path to remove, or none where the batch is done.
    pub fn next_request(&mut self) -> (r: Option<String>)
        ensures
            (text_of(r), final(self)@) == next_step(old(self)@),
    {
        let walked = match &self.walk {
            Some(w) => parent_of(w),
            None => None,
        };
        self.walk = None;
        match walked {
            Some(q) => {
                self.current = Some(q.clone());
                Some(q)
            },
            None => {
                match self.pending.pop() {
                    Some(p) => {
                        self.current = Some(p.clone());
                        assert(texts(self.pending@) =~= texts(old(self).pending@).drop_last());
                        Some(p)
                    },
                    None => {
                        self.current = None;
                        None
                    },
                }
            },
        }
    }

    /// Records whether the removal of the path last handed out succeeded.
    pub fn record(&mut self, succeeded: bool)
        ensures
            final(self)@ == after_outcome(old(self)@, succeeded),
    {
        if succeeded && self.recursive {
            self.walk = self.current.clone();
        } else {
            self.walk = None;
        }
    }
}

} // verus!
