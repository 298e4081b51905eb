//! The git commands that the server runs, as values: the library says which
//! command to run and what its outcome means; running it is the caller's
//! part.

use crate::config::GitConfig;
use crate::error::{GitStage, ServerError};
use crate::text::{chars_of, string_of, string_views, strip_chars, trimmed, CharSet};
use vstd::prelude::*;
use vstd::string::*;

verus! {

/// One invocation of `git`: its arguments in order.
#[derive(Clone, Debug, PartialEq, Eq)]
pub struct GitCommand {
    pub args: Vec<String>,
}

impl View for GitCommand {
    type V = Seq<Seq<char>>;

    open spec fn view(&self) -> Seq<Seq<char>> {
        string_views(self.args@)
    }
}

/// How an invocation of `git` ended.
#[derive(Clone, Debug, PartialEq, Eq)]
pub struct GitOutput {
    /// Whether the exit status was zero.
    pub success: bool,
    /// What the command wrote to its standard output.
    pub stdout: Vec<u8>,
    /// What the command wrote to its standard error, as text.
    pub stderr: String,
}

/// `git clone --branch <branch> --single-branch <repo_url> <workdir>`
pub open spec fn clone_args(git: GitConfig) -> Seq<Seq<char>> {
    seq!["clone"@, "--branch"@, git.branch@, "--single-branch"@, git.repo_url@, git.workdir@]
}

/// `git -C <workdir> fetch --all --prune`
pub open spec fn fetch_args(git: GitConfig) -> Seq<Seq<char>> {
    seq!["-C"@, git.workdir@, "fetch"@, "--all"@, "--prune"@]
}

/// The remote-tracking reference of a branch or tag: `origin/<name>`.
pub open spec fn remote_ref(name: Seq<char>) -> Seq<char> {
    "origin/"@ + name
}

/// `git -C <workdir> reset --hard origin/<branch>`
pub open spec fn reset_args(git: GitConfig) -> Seq<Seq<char>> {
    seq!["-C"@, git.workdir@, "reset"@, "--hard"@, remote_ref(git.branch@)]
}

/// `git -C <workdir> rev-parse <reference>`
pub open spec fn rev_parse_args(git: GitConfig, reference: Seq<char>) -> Seq<Seq<char>> {
    seq!["-C"@, git.workdir@, "rev-parse"@, reference]
}

/// `git -C <workdir> show -s --format=%cI <reference>`
pub open spec fn commit_date_args(git: GitConfig, reference: Seq<char>) -> Seq<Seq<char>> {
    seq!["-C"@, git.workdir@, "show"@, "-s"@, "--format=%cI"@, reference]
}

/// `git -C <workdir> show <reference>:<path>`
pub open spec fn show_file_args(git: GitConfig, reference: Seq<char>, path: Seq<char>) -> Seq<
    Seq<char>,
> {
    seq!["-C"@, git.workdir@, "show"@, reference + seq![':'] + path]
}

/// `git -C <workdir> ls-tree -r --name-only <branch>`
pub open spec fn list_tree_args(git: GitConfig) -> Seq<Seq<char>> {
    seq!["-C"@, git.workdir@, "ls-tree"@, "-r"@, "--name-only"@, git.branch@]
}

/// The remote-tracking reference of `name`.
pub fn remote_ref_of(name: &str) -> (r: String)
    ensures
        r@ == remote_ref(name@),
{
    let mut r = "origin/".to_owned();
    r.append(name);
    r
}

/// The command that clones the repository into the working directory,
/// restricted to the tracked branch.
pub fn clone_command(git: &GitConfig) -> (r: GitCommand)
    ensures
        r@ == clone_args(*git),
{
    let mut args: Vec<String> = Vec::new();
    args.push("clone".to_owned());
    args.push("--branch".to_owned());
    args.push(git.branch.clone());
    args.push("--single-branch".to_owned());
    args.push(git.repo_url.clone());
    args.push(git.workdir.clone());
    assert(string_views(args@) =~= clone_args(*git));
    GitCommand { args }
}

/// The arguments that every command on the mirror begins with.
fn in_workdir(git: &GitConfig) -> (args: Vec<String>)
    ensures
        string_views(args@) == seq!["-C"@, git.workdir@],
{
    let mut args: Vec<String> = Vec::new();
    args.push("-C".to_owned());
    args.push(git.workdir.clone());
    assert(string_views(args@) =~= seq!["-C"@, git.workdir@]);
    args
}

/// The command that fetches all remotes and prunes what they dropped.
pub fn fetch_command(git: &GitConfig) -> (r: GitCommand)
    ensures
        r@ == fetch_args(*git),
{
    let mut args = in_workdir(git);
    let ghost head = string_views(args@);
    args.push("fetch".to_owned());
    args.push("--all".to_owned());
    args.push("--prune".to_owned());
    assert(string_views(args@) =~= head + seq!["fetch"@, "--all"@, "--prune"@]);
    assert(string_views(args@) =~= fetch_args(*git));
    GitCommand { args }
}

/// The command that resets the working tree to the tip of the tracked
/// branch on the remote.
pub fn reset_command(git: &GitConfig) -> (r: GitCommand)
    ensures
        r@ == reset_args(*git),
{
    let mut args = in_workdir(git);
    let ghost head = string_views(args@);
    args.push("reset".to_owned());
    args.push("--hard".to_owned());
    args.push(remote_ref_of(git.branch.as_str()));
    assert(string_views(args@) =~= head + seq!["reset"@, "--hard"@, remote_ref(git.branch@)]);
    assert(string_views(args@) =~= reset_args(*git));
    GitCommand { args }
}

/// The command that resolves `reference` to a commit hash.
pub fn rev_parse_command(git: &GitConfig, reference: &str) -> (r: GitCommand)
    ensures
        r@ == rev_parse_args(*git, reference@),
{
    let mut args = in_workdir(git);
    let ghost head = string_views(args@);
    args.push("rev-parse".to_owned());
    args.push(reference.to_owned());
    assert(string_views(args@) =~= head + seq!["rev-parse"@, reference@]);
    assert(string_views(args@) =~= rev_parse_args(*git, reference@));
    GitCommand { args }
}

/// The command that prints the commit date of `reference` in ISO 8601.
pub fn commit_date_command(git: &GitConfig, reference: &str) -> (r: GitCommand)
    ensures
        r@ == commit_date_args(*git, reference@),
{
    let mut args = in_workdir(git);
    let ghost head = string_views(args@);
    args.push("show".to_owned());
    args.push("-s".to_owned());
    args.push("--format=%cI".to_owned());
    args.push(reference.to_owned());
    assert(string_views(args@) =~= head + seq!["show"@, "-s"@, "--format=%cI"@, reference@]);
    assert(string_views(args@) =~= commit_date_args(*git, reference@));
    GitCommand { args }
}

/// The command that prints the file at `path` as it is in `reference`.
pub fn show_file_command(git: &GitConfig, reference: &str, path: &str) -> (r: GitCommand)
    ensures
        r@ == show_file_args(*git, reference@, path@),
{
    let mut args = in_workdir(git);
    let ghost head = string_views(args@);
    args.push("show".to_owned());
    let mut object = reference.to_owned();
    object.push(':');
    object.append(path);
    assert(object@ =~= reference@ + seq![':'] + path@);
    args.push(object);
    assert(string_views(args@) =~= head + seq!["show"@, reference@ + seq![':'] + path@]);
    assert(string_views(args@) =~= show_file_args(*git, reference@, path@));
    GitCommand { args }
}

/// The command that lists every file at the tip of the tracked branch.
pub fn list_tree_command(git: &GitConfig) -> (r: GitCommand)
    ensures
        r@ == list_tree_args(*git),
{
    let mut args = in_workdir(git);
    let ghost head = string_views(args@);
    args.push("ls-tree".to_owned());
    args.push("-r".to_owned());
    args.push("--name-only".to_owned());
    args.push(git.branch.clone());
    assert(string_views(args@) =~= head + seq!["ls-tree"@, "-r"@, "--name-only"@, git.branch@]);
    assert(string_views(args@) =~= list_tree_args(*git));
    GitCommand { args }
}

/// The error for a command that ended with a failure status: it names the
/// stage and the revision, and carries the trimmed standard error.
pub fn git_failure(stage: GitStage, target: &str, output: &GitOutput) -> (e: ServerError)
    ensures
        e matches ServerError::Git { stage: s, target: t, stderr }
        && s == stage
        && t@ == target@
        && stderr@ == trimmed(output.stderr@),
{
    let stderr = string_of(&strip_chars(&chars_of(output.stderr.as_str()), CharSet::Whitespace));
    ServerError::Git { stage, target: target.to_owned(), stderr }
}

} // verus!
