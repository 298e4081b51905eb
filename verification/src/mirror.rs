//! Keeping the local mirror of a repository fresh.
//!
//! A synchronisation is a short sequence of git commands. The library
//! decides which command comes next and what a failure means; the caller
//! runs each command and reports how it ended.

use crate::config::GitConfig;
use crate::error::{GitStage, ServerError};
use crate::git::{
    clone_args, clone_command, fetch_args, fetch_command, git_failure, remote_ref, remote_ref_of,
    reset_args, reset_command, GitCommand, GitOutput,
};
use crate::text::trimmed;
use vstd::prelude::*;

verus! {

/// The command of a synchronisation that is running.
#[derive(Clone, Copy, Debug, PartialEq, Eq, Structural)]
pub enum SyncStage {
    /// The first clone of the repository.
    Clone,
    /// Fetching what the remote has.
    Fetch,
    /// Resetting the working tree to the tip of the tracked branch.
    Reset,
}

impl SyncStage {
    /// The stage as it is named in an error.
    pub open spec fn git_stage(self) -> GitStage {
        match self {
            SyncStage::Clone => GitStage::Clone,
            SyncStage::Fetch => GitStage::Fetch,
            SyncStage::Reset => GitStage::Reset,
        }
    }

    /// The revision that the command of this stage is given: the
    /// remote-tracking branch for a reset, none otherwise.
    pub open spec fn target(self, git: GitConfig) -> Seq<char> {
        match self {
            SyncStage::Reset => remote_ref(git.branch@),
            _ => Seq::<char>::empty(),
        }
    }

    /// The arguments of the command of this stage.
    pub open spec fn args(self, git: GitConfig) -> Seq<Seq<char>> {
        match self {
            SyncStage::Clone => clone_args(git),
            SyncStage::Fetch => fetch_args(git),
            SyncStage::Reset => reset_args(git),
        }
    }

    /// The stage that follows this one when its command succeeded, if the
    /// synchronisation is not complete then.
    pub open spec fn next(self) -> Option<SyncStage> {
        match self {
            SyncStage::Clone => None,
            SyncStage::Fetch => Some(SyncStage::Reset),
            SyncStage::Reset => None,
        }
    }
}

/// What a synchronisation does next.
#[derive(Debug, PartialEq, Eq)]
pub enum SyncStep {
    /// Run `command`, and report its outcome for `stage`.
    Run { stage: SyncStage, command: GitCommand },
    /// The mirror is in sync.
    Done,
}

/// The first stage of a synchronisation: a clone where there is no mirror
/// yet, a fetch where there is one.
pub open spec fn first_stage(mirror_exists: bool) -> SyncStage {
    if mirror_exists {
        SyncStage::Fetch
    } else {
        SyncStage::Clone
    }
}

/// The step that runs the command of `stage`.
fn run_stage(git: &GitConfig, stage: SyncStage) -> (r: SyncStep)
    ensures
        r matches SyncStep::Run { stage: s, command } && s == stage && command@ == stage.args(*git),
{
    let command = match stage {
        SyncStage::Clone => clone_command(git),
        SyncStage::Fetch => fetch_command(git),
        SyncStage::Reset => reset_command(git),
    };
    SyncStep::Run { stage, command }
}

/// Begins a synchronisation. Without a local mirror the repository is
/// cloned, restricted to the tracked branch; with one, everything is
/// fetched from the remote.
pub fn begin_sync(git: &GitConfig, mirror_exists: bool) -> (r: SyncStep)
    ensures
        r matches SyncStep::Run { stage, command } && stage == first_stage(mirror_exists)
            && command@ == stage.args(*git),
{
    if mirror_exists {
        run_stage(git, SyncStage::Fetch)
    } else {
        run_stage(git, SyncStage::Clone)
    }
}

/// Continues a synchronisation after the command of `stage` ended with
/// `output`. A command that failed ends the synchronisation with an error
/// that names the stage and carries the trimmed standard error. After a
/// successful fetch the working tree is reset to the remote branch; after a
/// successful clone or reset the mirror is in sync.
pub fn continue_sync(git: &GitConfig, stage: SyncStage, output: &GitOutput) -> (r: Result<
    SyncStep,
    ServerError,
>)
    ensures
        r is Ok <==> output.success,
        r matches Err(e) ==> e matches ServerError::Git { stage: s, target, stderr }
            && s == stage.git_stage()
            && target@ == stage.target(*git)
            && stderr@ == trimmed(output.stderr@),
        r matches Ok(step) ==> match stage.next() {
            Some(following) => step matches SyncStep::Run { stage: s, command } && s == following
                && command@ == following.args(*git),
            None => step is Done,
        },
{
    if !output.success {
        let e = match stage {
            SyncStage::Clone => git_failure(GitStage::Clone, "", output),
            SyncStage::Fetch => git_failure(GitStage::Fetch, "", output),
            SyncStage::Reset => {
                let target = remote_ref_of(git.branch.as_str());
                git_failure(GitStage::Reset, target.as_str(), output)
            },
        };
        proof {
            reveal_strlit("");
        }
        return Err(e);
    }
    match stage {
        SyncStage::Fetch => Ok(run_stage(git, SyncStage::Reset)),
        _ => Ok(SyncStep::Done),
    }
}

} // verus!
