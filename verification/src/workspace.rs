//! The workspace bootstrapper: two fixed directories, an outer one and one
//! named `root` inside it, that are made at startup where they are missing.
//!
//! The program probes each path and creates what this module asks for. A
//! path that is taken by something else is left alone. No outcome stops the
//! startup.

use vstd::prelude::*;

verus! {

/// The outer directory of the workspace.
pub const WORKSPACE_ROOT: &'static str = "C:\\honey";

/// What separates the parts of a workspace path.
pub const PATH_SEPARATOR: &'static str = "\\";

/// The name of the directory inside the outer one.
pub const INNER_NAME: &'static str = "root";

/// The inner directory of the workspace.
pub const WORKSPACE_INNER: &'static str = "C:\\honey\\root";

/// What probing a path found.
#[derive(Clone, Copy, Debug, PartialEq, Eq)]
pub enum Presence {
    /// Nothing is there.
    Absent,
    /// A directory is there.
    Directory,
    /// Something is there that is not a directory.
    Other,
}

/// What the program does about one path of the workspace.
#[derive(Clone, Copy, Debug, PartialEq, Eq)]
pub enum Decision {
    /// Leave the directory as it is.
    Keep,
    /// Create the directory.
    Create,
    /// Leave the path alone and report that it is taken.
    Report,
}

/// How the step for one path ended.
#[derive(Clone, Copy, Debug, PartialEq, Eq)]
pub enum Outcome {
    /// The directory was there already.
    Present,
    /// The directory was created.
    Created,
    /// The path is taken by something that is not a directory.
    Obstructed,
    /// The directory could not be created.
    CreateFailed,
}

/// The two paths of the workspace as probes found them.
pub struct WorkspaceState {
    /// The outer directory.
    pub root: Presence,
    /// The inner directory.
    pub inner: Presence,
}

/// What is done about a path that was found as `presence`: a missing
/// directory is created, a directory is kept, and anything else is reported
/// and not replaced.
pub open spec fn decision_for(presence: Presence) -> Decision {
    match presence {
        Presence::Absent => Decision::Create,
        Presence::Directory => Decision::Keep,
        Presence::Other => Decision::Report,
    }
}

/// How the step ends for a path found as `presence`, where `created` tells
/// whether a creation that was asked for succeeded.
pub open spec fn outcome_for(presence: Presence, created: bool) -> Outcome {
    match presence {
        Presence::Absent => if created {
            Outcome::Created
        } else {
            Outcome::CreateFailed
        },
        Presence::Directory => Outcome::Present,
        Presence::Other => Outcome::Obstructed,
    }
}

/// What is at the path after the step.
pub open spec fn presence_after(presence: Presence, created: bool) -> Presence {
    match outcome_for(presence, created) {
        Outcome::Created => Presence::Directory,
        _ => presence,
    }
}

/// Whether an outcome is reported as an error.
pub open spec fn is_error(outcome: Outcome) -> bool {
    outcome is Obstructed || outcome is CreateFailed
}

/// The workspace after a bootstrap that found it as `state`, where
/// `root_created` and `inner_created` tell whether the creations that were
/// asked for succeeded.
pub open spec fn bootstrapped(
    state: WorkspaceState,
    root_created: bool,
    inner_created: bool,
) -> WorkspaceState {
    WorkspaceState {
        root: presence_after(state.root, root_created),
        inner: presence_after(state.inner, inner_created),
    }
}

/// Whether that bootstrap reports an error.
pub open spec fn reports_error(
    state: WorkspaceState,
    root_created: bool,
    inner_created: bool,
) -> bool {
    is_error(outcome_for(state.root, root_created)) || is_error(
        outcome_for(state.inner, inner_created),
    )
}

/// Decides what to do about a path that was found as `presence`.
pub fn decide(presence: Presence) -> (decision: Decision)
    ensures
        decision == decision_for(presence),
{
    match presence {
        Presence::Absent => Decision::Create,
        Presence::Directory => Decision::Keep,
        Presence::Other => Decision::Report,
    }
}

/// The outcome to log for a path that was found as `presence`; `created`
/// tells whether the creation succeeded, and counts only where one was asked
/// for.
pub fn conclude(presence: Presence, created: bool) -> (outcome: Outcome)
    ensures
        outcome == outcome_for(presence, created),
{
    match presence {
        Presence::Absent => if created {
            Outcome::Created
        } else {
            Outcome::CreateFailed
        },
        Presence::Directory => Outcome::Present,
        Presence::Other => Outcome::Obstructed,
    }
}

/// The paths of the workspace in the order in which they are made: the
/// outer directory first, then the one inside it.
pub fn workspace_directories() -> (paths: Vec<String>)
    ensures
        paths@.len() == 2,
        paths@[0]@ == WORKSPACE_ROOT@,
        paths@[1]@ == WORKSPACE_INNER@,
{
    let mut paths: Vec<String> = Vec::new();
    paths.push(WORKSPACE_ROOT.to_string());
    paths.push(WORKSPACE_INNER.to_string());
    paths
}

/// The inner directory lies directly inside the outer one, under its name.
pub proof fn lemma_inner_is_inside_root()
    ensures
        WORKSPACE_INNER@ == WORKSPACE_ROOT@ + PATH_SEPARATOR@ + INNER_NAME@,
{
    reveal_strlit("C:\\honey");
    reveal_strlit("\\");
    reveal_strlit("root");
    reveal_strlit("C:\\honey\\root");
    assert(WORKSPACE_INNER@ =~= WORKSPACE_ROOT@ + PATH_SEPARATOR@ + INNER_NAME@);
}

/// A directory is created only where nothing was found, and what is there
/// is never replaced: after the step the path holds what it held, or a new
/// directory where it held nothing.
pub proof fn lemma_nothing_is_replaced(presence: Presence, created: bool)
    ensures
        decision_for(presence) is Create <==> presence is Absent,
        presence !is Absent ==> presence_after(presence, created) == presence,
        presence_after(presence, created) is Directory <==> presence is Directory || (presence
            is Absent && created),
{
}

/// On a host without the workspace, a bootstrap whose creations succeed
/// leaves both directories in place, and reports no error.
pub proof fn lemma_fresh_host()
    ensures
        ({
            let fresh = WorkspaceState { root: Presence::Absent, inner: Presence::Absent };
            &&& bootstrapped(fresh, true, true) == (WorkspaceState {
                root: Presence::Directory,
                inner: Presence::Directory,
            })
            &&& !reports_error(fresh, true, true)
        }),
{
}

/// A bootstrap is idempotent: after one that reported no error, a second one
/// creates nothing, changes nothing and reports no error, whatever would
/// become of a creation.
pub proof fn lemma_bootstrap_is_idempotent(
    state: WorkspaceState,
    root_created: bool,
    inner_created: bool,
    root_created_again: bool,
    inner_created_again: bool,
)
    requires
        !reports_error(state, root_created, inner_created),
    ensures
        ({
            let once = bootstrapped(state, root_created, inner_created);
            &&& decision_for(once.root) is Keep
            &&& decision_for(once.inner) is Keep
            &&& bootstrapped(once, root_created_again, inner_created_again) == once
            &&& !reports_error(once, root_created_again, inner_created_again)
            &&& once.root is Directory
            &&& once.inner is Directory
        }),
{
}

} // verus!
