//! The link operator's decisions: what to do for one (source, target)
//! pair, and how each filesystem answer turns into an outcome or an error
//! message.  The filesystem calls themselves are made by the caller, which
//! reports what happened back into `link_outcome` or `break_outcome`.

use crate::paths::parent_of;
use crate::paths::spec_parent;
use vstd::prelude::*;
use vstd::string::StrSliceExecFns;
use vstd::string::StringExecFns;

verus! {

/// The per-pair result of attempting link creation.
#[derive(Debug)]
pub enum Outcome {
    /// The link was created.
    Created,
    /// The target was already a symbolic link; nothing was done.
    Skipped,
    /// The pair failed, with its human-readable message.
    Failed { message: String },
}

/// What is to be done for one (source, target) pair.
#[derive(Debug)]
pub enum LinkStep {
    /// The target is already a symbolic link: skip the pair, change
    /// nothing.
    AlreadyLinked,
    /// The target has no parent component: the pair fails.
    NoParent,
    /// Create `parent` (with any missing ancestors) unless it exists, then
    /// link the target to the source.
    EnsureParentThenLink { parent: String },
}

/// The message for a target with no parent component.
pub open spec fn no_parent_message(target: Seq<char>) -> Seq<char> {
    "Failed to create link directory. "@ + target + "\n"@
}

/// The message for a parent directory that could not be created.
pub open spec fn dir_failed_message(error: Seq<char>) -> Seq<char> {
    "Failed to create target link parent directory.\n"@ + error + "\n"@
}

/// The message for a link that could not be formed.
pub open spec fn link_failed_message(
    source: Seq<char>,
    target: Seq<char>,
    error: Seq<char>,
) -> Seq<char> {
    "Failed to form the following link:\n\t"@ + source + " -> "@ + target + ",\nError: "@ + error
        + "\n"@
}

/// Decides what link creation must do for `target`.
///
/// A target that is already a symbolic link is skipped whatever it points
/// at: repeating a run is always safe.  Otherwise the pair needs the
/// target's parent directory; a target without one fails.
pub fn plan_link(target: &str, target_is_symlink: bool) -> (s: LinkStep)
    ensures
        target_is_symlink ==> s == LinkStep::AlreadyLinked,
        !target_is_symlink ==> match spec_parent(target@) {
            None => s == LinkStep::NoParent,
            Some(p) => s matches LinkStep::EnsureParentThenLink { parent } && parent@ == p,
        },
{
    if target_is_symlink {
        return LinkStep::AlreadyLinked;
    }
    match parent_of(target) {
        None => LinkStep::NoParent,
        Some(parent) => LinkStep::EnsureParentThenLink { parent },
    }
}

/// What happened when the caller carried a `LinkStep` out.
#[derive(Debug)]
pub enum LinkAttempt {
    /// The plan was `AlreadyLinked`: nothing was attempted.
    AlreadySymlink,
    /// The plan was `NoParent`: nothing was attempted.
    NoParentDir,
    /// Creating the parent directory failed, with the underlying error
    /// text.
    DirFailed { error: String },
    /// Forming the link failed, with the underlying error text.
    LinkFailed { error: String },
    /// The link was formed.
    Linked,
}

/// Turns what happened for one (source, target) pair into its outcome.
///
/// A pre-existing link is a skip, never an error; every failure carries a
/// message naming the paths and the underlying error.
pub fn link_outcome(source: &str, target: &str, attempt: LinkAttempt) -> (o: Outcome)
    ensures
        attempt matches LinkAttempt::AlreadySymlink ==> o == Outcome::Skipped,
        attempt matches LinkAttempt::Linked ==> o == Outcome::Created,
        attempt matches LinkAttempt::NoParentDir ==> (o matches Outcome::Failed { message }
            && message@ == no_parent_message(target@)),
        (attempt matches LinkAttempt::DirFailed { error } ==> (o matches Outcome::Failed { message }
            && message@ == dir_failed_message(error@))),
        (attempt matches LinkAttempt::LinkFailed { error } ==> (o matches Outcome::Failed { message }
            && message@ == link_failed_message(source@, target@, error@))),
{
    match attempt {
        LinkAttempt::AlreadySymlink => Outcome::Skipped,
        LinkAttempt::Linked => Outcome::Created,
        LinkAttempt::NoParentDir => {
            let mut m = "Failed to create link directory. ".to_owned();
            m.append(target);
            m.append("\n");
            Outcome::Failed { message: m }
        },
        LinkAttempt::DirFailed { error } => {
            let mut m = "Failed to create target link parent directory.\n".to_owned();
            m.append(error.as_str());
            m.append("\n");
            Outcome::Failed { message: m }
        },
        LinkAttempt::LinkFailed { error } => {
            let mut m = "Failed to form the following link:\n\t".to_owned();
            m.append(source);
            m.append(" -> ");
            m.append(target);
            m.append(",\nError: ");
            m.append(error.as_str());
            m.append("\n");
            Outcome::Failed { message: m }
        },
    }
}

/// What is to be done to tear a link down.
#[derive(Debug)]
pub enum BreakStep {
    /// The target is not a symbolic link: nothing may be removed.
    NotALink,
    /// The link resolves to a directory: remove the tree at `path` — the
    /// link path itself, never the link's referent.
    RemoveTree { path: String },
    /// The link resolves to a file, or dangles: remove the single entry at
    /// `path` — the link path itself.
    RemoveFile { path: String },
}

/// Decides what link removal must do for `target`.
///
/// Only a path that currently is a symbolic link may be removed; the path
/// handed back in either removal step is the target itself, so removal
/// never touches data reachable only through the link's source.
pub fn plan_break(target: &str, target_is_symlink: bool, resolves_to_dir: bool) -> (s: BreakStep)
    ensures
        !target_is_symlink ==> s == BreakStep::NotALink,
        target_is_symlink && resolves_to_dir ==> (s matches BreakStep::RemoveTree { path } && path@
            == target@),
        target_is_symlink && !resolves_to_dir ==> (s matches BreakStep::RemoveFile { path } && path@
            == target@),
{
    if !target_is_symlink {
        BreakStep::NotALink
    } else if resolves_to_dir {
        BreakStep::RemoveTree { path: target.to_owned() }
    } else {
        BreakStep::RemoveFile { path: target.to_owned() }
    }
}

/// The message for a removal target that is not a symbolic link.
pub open spec fn not_symlink_message(target: Seq<char>) -> Seq<char> {
    "Cannot break link provided target: `"@ + target + "` is not a symbolic link!\n"@
}

/// The message for a link entry that could not be removed.
pub open spec fn unlink_failed_message(target: Seq<char>, error: Seq<char>) -> Seq<char> {
    "Failed to break link for the directory `"@ + target + "`\nfs error: "@ + error
}

/// What happened when the caller carried a `BreakStep` out.
#[derive(Debug)]
pub enum BreakAttempt {
    /// The plan was `NotALink`: nothing was attempted.
    NotSymlink,
    /// Removing the entry failed, with the underlying error text.
    RemoveFailed { error: String },
    /// The entry was removed.
    Removed,
}

/// Turns what happened during link removal into its result.
pub fn break_outcome(target: &str, attempt: BreakAttempt) -> (r: Result<(), String>)
    ensures
        attempt matches BreakAttempt::Removed ==> r is Ok,
        attempt matches BreakAttempt::NotSymlink ==> (r matches Err(m) && m@ == not_symlink_message(
            target@,
        )),
        (attempt matches BreakAttempt::RemoveFailed { error } ==> (r matches Err(m) && m@
            == unlink_failed_message(target@, error@))),
{
    match attempt {
        BreakAttempt::Removed => Ok(()),
        BreakAttempt::NotSymlink => {
            let mut m = "Cannot break link provided target: `".to_owned();
            m.append(target);
            m.append("` is not a symbolic link!\n");
            Err(m)
        },
        BreakAttempt::RemoveFailed { error } => {
            let mut m = "Failed to break link for the directory `".to_owned();
            m.append(target);
            m.append("`\nfs error: ");
            m.append(error.as_str());
            Err(m)
        },
    }
}

} // verus!
