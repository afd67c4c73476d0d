//! Failures of one directory operation and the lines reported for them.
use vstd::prelude::*;

verus! {

/// Why one directory operation failed.
#[derive(Clone, Copy, Debug, PartialEq, Eq, Structural)]
pub enum FailureKind {
    /// The creation target exists already.
    AlreadyExists,
    /// A parent of the creation target, or the removal target, is missing.
    NotFound,
    /// The removal target still holds entries.
    NotEmpty,
    /// The path is empty and names no directory.
    InvalidTarget,
    /// The system refused access.
    PermissionDenied,
    /// Any other error the system reports.
    Other,
}

/// The failure of one directory operation: its kind and the text shown for it.
#[derive(Clone, Debug)]
pub struct Failure {
    pub kind: FailureKind,
    pub reason: String,
}

/// The text shown for an empty removal target.
pub open spec fn invalid_target_reason() -> Seq<char> {
    seq!['E', 'm', 'p', 't', 'y', ' ', 's', 't', 'r', 'i', 'n', 'g', '.', '.', '.']
}

/// What one processed path prints, and on which stream.
#[derive(Clone, Debug)]
pub enum Line {
    /// A line for standard output.
    Output(String),
    /// A line for the error stream.
    Error(String),
}

/// A diagnostic of the error stream: `<tool>: <path>: <reason>`.
pub open spec fn diagnostic(tool: Seq<char>, path: Seq<char>, reason: Seq<char>) -> Seq<char> {
    tool + seq![':', ' '] + path + seq![':', ' '] + reason
}

/// The confirmation printed for a removed directory: `Removed <path>`.
pub open spec fn removed_text(path: Seq<char>) -> Seq<char> {
    seq!['R', 'e', 'm', 'o', 'v', 'e', 'd', ' '] + path
}

pub open spec fn mkdir_name() -> Seq<char> {
    seq!['m', 'k', 'd', 'i', 'r']
}

pub open spec fn rmdir_name() -> Seq<char> {
    seq!['r', 'm', 'd', 'i', 'r']
}

/// The message for a batch without paths.
pub open spec fn no_paths_text() -> Seq<char> {
    seq![
        'N', 'o', ' ', 'd', 'i', 'r', 'e', 'c', 't', 'o', 'r', 'i', 'e', 's', ' ', 'g', 'i', 'v',
        'e', 'n', '.',
    ]
}

impl Failure {
    /// The failure of an empty removal target, found before the file system is asked.
    pub fn invalid_target() -> (r: Failure)
        ensures
            r.kind == FailureKind::InvalidTarget,
            r.reason@ == invalid_target_reason(),
    {
        let reason = String::from_str("Empty string...");
        proof {
            reveal_strlit("Empty string...");
        }
        Failure { kind: FailureKind::InvalidTarget, reason }
    }
}

fn diagnostic_line(tool: &str, path: &String, reason: &String) -> (r: String)
    ensures
        r@ == diagnostic(tool@, path@, reason@),
{
    let mut s = String::from_str(tool);
    s.append(": ");
    s.append(path.as_str());
    s.append(": ");
    s.append(reason.as_str());
    proof {
        reveal_strlit(": ");
    }
    assert(s@ =~= diagnostic(tool@, path@, reason@));
    s
}

/// What the creation of `path` prints: on failure a diagnostic on the error
/// stream; on success the path on standard output where `verbose` is set.
pub fn creation_line(path: &String, outcome: &Result<(), Failure>, verbose: bool) -> (r: Option<Line>)
    ensures
        match outcome {
            Err(f) => r matches Some(Line::Error(s)) && s@ == diagnostic(mkdir_name(), path@, f.reason@),
            Ok(_) => if verbose {
                r matches Some(Line::Output(s)) && s@ == path@
            } else {
                r is None
            },
        },
{
    match outcome {
        Err(f) => {
            proof {
                reveal_strlit("mkdir");
            }
            Some(Line::Error(diagnostic_line("mkdir", path, &f.reason)))
        },
        Ok(_) => {
            if verbose {
                Some(Line::Output(path.clone()))
            } else {
                None
            }
        },
    }
}

/// What the removal of `path` prints: on failure a diagnostic on the error
/// stream; on success `Removed <path>` on standard output where `verbose` is set.
pub fn removal_line(path: &String, outcome: &Result<(), Failure>, verbose: bool) -> (r: Option<Line>)
    ensures
        match outcome {
            Err(f) => r matches Some(Line::Error(s)) && s@ == diagnostic(rmdir_name(), path@, f.reason@),
            Ok(_) => if verbose {
                r matches Some(Line::Output(s)) && s@ == removed_text(path@)
            } else {
                r is None
            },
        },
{
    match outcome {
        Err(f) => {
            proof {
                reveal_strlit("rmdir");
            }
            Some(Line::Error(diagnostic_line("rmdir", path, &f.reason)))
        },
        Ok(_) => {
            if verbose {
                let mut s = String::from_str("Removed ");
                s.append(path.as_str());
                proof {
                    reveal_strlit("Removed ");
                }
                assert(s@ =~= removed_text(path@));
                Some(Line::Output(s))
            } else {
                None
            }
        },
    }
}

/// The message for the error stream where a batch holds no path, and none otherwise;
/// such a batch still completes successfully.
pub fn no_paths_notice(paths: &Vec<String>) -> (r: Option<String>)
    ensures
        paths@.len() == 0 <==> r is Some,
        r matches Some(s) ==> s@ == no_paths_text(),
{
    if paths.len() == 0 {
        proof {
            reveal_strlit("No directories given.");
        }
        Some(String::from_str("No directories given."))
    } else {
        None
    }
}

} // verus!
