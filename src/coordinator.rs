//! The coordinator's decisions: where a candidate goes, what the outcome of the
//! exclusive create means, which event it yields, and what is reported.
use vstd::prelude::*;
use vstd::utf8::{decode_utf8, valid_utf8};
use vstd::string::StringExecFns;
use crate::paths::{file_name, file_name_of, push, push_path, path_str, PathError};
use crate::stats::Statistic;

verus! {

/// The destination of `candidate`: its file name joined onto `dest_dir`. A
/// candidate without a file name has none, and is dropped.
pub open spec fn destination(dest_dir: Seq<u8>, candidate: Seq<u8>) -> Option<Seq<u8>> {
    match file_name(candidate) {
        Some(n) => Some(push(dest_dir, n)),
        None => None,
    }
}

/// Computes the destination of `candidate` under `dest_dir`.
pub fn destination_path(dest_dir: &Vec<u8>, candidate: &Vec<u8>) -> (r: Option<Vec<u8>>)
    ensures
        crate::paths::opt_view(r) == destination(dest_dir@, candidate@),
{
    match file_name_of(candidate) {
        Some(n) => Some(push_path(dest_dir, &n)),
        None => None,
    }
}

/// What came of the exclusive (create-only) open of a destination.
#[derive(Debug, Clone, Copy, PartialEq, Eq, Structural)]
pub enum CreateOutcome {
    /// No create was tried: a dry run does not touch the destination.
    NotAttempted,
    /// The file was created; nothing stood at the destination before.
    Created,
    /// A file already stood at the destination.
    AlreadyExists,
    /// The create failed for another reason (permissions, I/O, a full disk).
    Failed,
}

/// The three ways in which a candidate with a destination can be resolved.
#[derive(Debug, Clone, Copy, PartialEq, Eq, Structural)]
pub enum Decision {
    Dispatch,
    Skip,
    Abort,
}

/// A dry run dispatches every candidate; a real run dispatches after a
/// successful create, skips a destination that exists, and aborts on any other
/// failure (or where no create was tried).
pub open spec fn decide(dry_run: bool, outcome: CreateOutcome) -> Decision {
    if dry_run {
        Decision::Dispatch
    } else {
        match outcome {
            CreateOutcome::Created => Decision::Dispatch,
            CreateOutcome::AlreadyExists => Decision::Skip,
            _ => Decision::Abort,
        }
    }
}

/// The event that a decision emits; an abort emits none.
pub open spec fn statistic_of(d: Decision) -> Option<Statistic> {
    match d {
        Decision::Dispatch => Some(Statistic::Copied),
        Decision::Skip => Some(Statistic::NotCopiedBecauseAlreadyExistedAtDest),
        Decision::Abort => None,
    }
}

/// One copy to perform: all the bytes of `source` into the freshly created
/// `destination`; in a dry run, only a report of it.
pub struct CopyTask {
    pub source: Vec<u8>,
    pub destination: Vec<u8>,
    pub dry_run: bool,
}

/// How the coordinator resolved one candidate.
pub enum Resolution {
    /// Run this copy, and count it as copied.
    Dispatch(CopyTask),
    /// Report that this destination already exists, and count it as skipped.
    SkipExisting(Vec<u8>),
    /// Stop the run with an error.
    Abort,
}

impl Resolution {
    pub open spec fn decision(&self) -> Decision {
        match self {
            Resolution::Dispatch(_) => Decision::Dispatch,
            Resolution::SkipExisting(_) => Decision::Skip,
            Resolution::Abort => Decision::Abort,
        }
    }

    /// The event to send to the aggregator for this resolution.
    pub fn statistic(&self) -> (r: Option<Statistic>)
        ensures
            r == statistic_of(self.decision()),
    {
        match self {
            Resolution::Dispatch(_) => Some(Statistic::Copied),
            Resolution::SkipExisting(_) => Some(Statistic::NotCopiedBecauseAlreadyExistedAtDest),
            Resolution::Abort => None,
        }
    }
}

/// Resolves the candidate `source`, whose destination is `destination`, given
/// what came of the exclusive create there.
pub fn resolve(source: Vec<u8>, destination: Vec<u8>, dry_run: bool, outcome: CreateOutcome) -> (r:
    Resolution)
    ensures
        r.decision() == decide(dry_run, outcome),
        r matches Resolution::Dispatch(t) ==> t.source@ == source@ && t.destination@
            == destination@ && t.dry_run == dry_run,
        r matches Resolution::SkipExisting(d) ==> d@ == destination@,
{
    if dry_run {
        return Resolution::Dispatch(CopyTask { source, destination, dry_run });
    }
    match outcome {
        CreateOutcome::Created => Resolution::Dispatch(CopyTask { source, destination, dry_run }),
        CreateOutcome::AlreadyExists => Resolution::SkipExisting(destination),
        _ => Resolution::Abort,
    }
}

/// The index of the first copy that failed, in dispatch order, if any did.
pub fn first_failure(succeeded: &Vec<bool>) -> (r: Option<usize>)
    ensures
        match r {
            Some(i) => i < succeeded@.len() && !succeeded@[i as int] && forall|j: int|
                0 <= j < i ==> succeeded@[j],
            None => forall|j: int| 0 <= j < succeeded@.len() ==> succeeded@[j],
        },
{
    let mut i: usize = 0;
    while i < succeeded.len()
        invariant
            i <= succeeded@.len(),
            forall|j: int| 0 <= j < i ==> succeeded@[j],
        decreases succeeded@.len() - i,
    {
        if !succeeded[i] {
            return Some(i);
        }
        i = i + 1;
    }
    None
}

/// The line that reports a dry-run copy.
pub open spec fn dry_run_text(source: Seq<char>, destination: Seq<char>) -> Seq<char> {
    "Dry-running; would otherwise copy "@ + source + " to "@ + destination
}

/// The line that reports a finished copy.
pub open spec fn copied_text(source: Seq<char>, destination: Seq<char>) -> Seq<char> {
    "Copied "@ + source + " to "@ + destination
}

/// The line that reports a destination that already exists.
pub open spec fn skip_text(destination: Seq<char>) -> Seq<char> {
    "Book "@ + destination + " already exists on the destination; will not copy across."@
}

impl CopyTask {
    /// The line that reports this copy: what a dry run would do, or what a real
    /// one did. Fails where either path is not valid UTF-8.
    pub fn notice(&self) -> (r: Result<String, PathError>)
        ensures
            r is Ok <==> valid_utf8(self.source@) && valid_utf8(self.destination@),
            r matches Ok(s) ==> s@ == if self.dry_run {
                dry_run_text(decode_utf8(self.source@), decode_utf8(self.destination@))
            } else {
                copied_text(decode_utf8(self.source@), decode_utf8(self.destination@))
            },
    {
        let src = match path_str(&self.source) {
            Ok(s) => s,
            Err(e) => return Err(e),
        };
        let dest = match path_str(&self.destination) {
            Ok(s) => s,
            Err(e) => return Err(e),
        };
        let mut line = if self.dry_run {
            String::from_str("Dry-running; would otherwise copy ")
        } else {
            String::from_str("Copied ")
        };
        line.append(src.as_str());
        line.append(" to ");
        line.append(dest.as_str());
        Ok(line)
    }
}

/// The line that reports that `destination` already exists. Fails where it is
/// not valid UTF-8.
pub fn skip_notice(destination: &Vec<u8>) -> (r: Result<String, PathError>)
    ensures
        r is Ok <==> valid_utf8(destination@),
        r matches Ok(s) ==> s@ == skip_text(decode_utf8(destination@)),
{
    let dest = match path_str(destination) {
        Ok(s) => s,
        Err(e) => return Err(e),
    };
    let mut line = String::from_str("Book ");
    line.append(dest.as_str());
    line.append(" already exists on the destination; will not copy across.");
    Ok(line)
}

} // verus!
