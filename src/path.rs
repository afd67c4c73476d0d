//! Parents and ancestors of a path, by its `/` separators.
use vstd::prelude::*;
use crate::outcome::{invalid_target_reason, Failure, FailureKind};

verus! {

/// Index of the last `/` in `p`, or -1 where `p` holds none.
pub open spec fn last_slash(p: Seq<char>) -> int
    decreases p.len(),
{
    if p.len() == 0 {
        -1
    } else if p.last() == '/' {
        p.len() - 1
    } else {
        last_slash(p.drop_last())
    }
}

/// The parent of `p`: `p` up to (not including) its last `/`; none where `p` holds no `/`.
pub open spec fn parent(p: Seq<char>) -> Option<Seq<char>> {
    let i = last_slash(p);
    if i < 0 {
        None
    } else {
        Some(p.subrange(0, i))
    }
}

pub proof fn lemma_last_slash(p: Seq<char>)
    ensures
        -1 <= last_slash(p) < p.len(),
        last_slash(p) >= 0 ==> p[last_slash(p)] == '/',
        forall|j: int| last_slash(p) < j < p.len() ==> p[j] != '/',
    decreases p.len(),
{
    if p.len() > 0 && p.last() != '/' {
        let q = p.drop_last();
        lemma_last_slash(q);
        assert forall|j: int| last_slash(p) < j < p.len() implies p[j] != '/' by {
            if j < q.len() {
                assert(p[j] == q[j]);
            }
        }
    }
}

proof fn lemma_last_slash_at(p: Seq<char>, k: int)
    requires
        -1 <= k < p.len(),
        k >= 0 ==> p[k] == '/',
        forall|j: int| k < j < p.len() ==> p[j] != '/',
    ensures
        last_slash(p) == k,
    decreases p.len(),
{
    if p.len() > 0 && p.last() != '/' {
        lemma_last_slash_at(p.drop_last(), k);
    }
}

pub proof fn lemma_parent_shorter(p: Seq<char>)
    ensures
        parent(p) is Some ==> parent(p)->0.len() < p.len(),
{
    lemma_last_slash(p);
}

#[via_fn]
proof fn ancestors_decreases(p: Seq<char>) {
    lemma_parent_shorter(p);
}

/// Every ancestor of `p`, nearest first: the parent, its parent, and so on
/// while a `/` remains to strip at.
pub open spec fn ancestors(p: Seq<char>) -> Seq<Seq<char>>
    decreases p.len(),
    via ancestors_decreases
{
    match parent(p) {
        None => Seq::empty(),
        Some(q) => seq![q] + ancestors(q),
    }
}

/// The parent of `p` (see `parent`).
pub fn parent_of(p: &String) -> (r: Option<String>)
    ensures
        r matches Some(q) <==> parent(p@) is Some,
        r matches Some(q) ==> parent(p@) == Some(q@),
{
    let s = p.as_str();
    let n = s.unicode_len();
    let mut i: usize = n;
    while i > 0
        invariant
            i <= n,
            n == s@.len(),
            s@ == p@,
            forall|j: int| i <= j < n ==> s@[j] != '/',
        decreases i,
    {
        if s.get_char(i - 1) == '/' {
            proof {
                lemma_last_slash_at(p@, i - 1);
            }
            let q = s.substring_char(0, i - 1);
            return Some(q.to_owned());
        }
        i = i - 1;
    }
    proof {
        lemma_last_slash_at(p@, -1);
    }
    None
}

/// A character of the Unicode `White_Space` property.
pub open spec fn is_white_space(c: char) -> bool {
    let n = c as u32;
    (0x9 <= n <= 0xd) || n == 0x20 || n == 0x85 || n == 0xa0 || n == 0x1680 || (0x2000 <= n
        <= 0x200a) || n == 0x2028 || n == 0x2029 || n == 0x202f || n == 0x205f || n == 0x3000
}

/// `s` without its leading white space.
pub open spec fn trim_start(s: Seq<char>) -> Seq<char>
    decreases s.len(),
{
    if s.len() > 0 && is_white_space(s[0]) {
        trim_start(s.drop_first())
    } else {
        s
    }
}

/// `s` without its trailing white space.
pub open spec fn trim_end(s: Seq<char>) -> Seq<char>
    decreases s.len(),
{
    if s.len() > 0 && is_white_space(s.last()) {
        trim_end(s.drop_last())
    } else {
        s
    }
}

/// `s` without its leading and trailing white space.
pub open spec fn trimmed(s: Seq<char>) -> Seq<char> {
    trim_end(trim_start(s))
}

/// Relies on `str::trim`: the text with leading and trailing characters of the
/// Unicode `White_Space` property removed.
#[verifier::external_body]
fn trim_text(s: &str) -> (r: String)
    ensures
        r@ == trimmed(s@),
{
    s.trim().to_string()
}

/// The directory that the removal of `path` acts on: the path without its
/// surrounding white space. An empty path names no directory and is refused
/// before the file system is asked.
pub fn removal_target(path: &String) -> (r: Result<String, Failure>)
    ensures
        r is Err <==> path@.len() == 0,
        r matches Err(f) ==> f.kind == FailureKind::InvalidTarget && f.reason@ == invalid_target_reason(),
        r matches Ok(t) ==> t@ == trimmed(path@),
{
    if path.as_str().is_empty() {
        Err(Failure::invalid_target())
    } else {
        Ok(trim_text(path.as_str()))
    }
}

} // verus!
