//! Reading from a mirror: which references to try for a label, which object
//! a path names, and what the output of the git commands means.

use crate::config::GitConfig;
use crate::error::{GitStage, ServerError};
use crate::git::{
    commit_date_args, commit_date_command, git_failure, remote_ref, remote_ref_of, rev_parse_args,
    rev_parse_command, show_file_args, show_file_command, GitCommand, GitOutput,
};
use crate::text::{
    chars_of, copy_range, has_prefix, opt_view, split_chars, split_on, string_of, string_views,
    strip_bounds, strip_chars, trimmed, utf8_text, vec_views, CharSet,
};
use vstd::prelude::*;
use vstd::string::*;
use vstd::utf8::{decode_utf8, valid_utf8};

verus! {

/// The name that a request asks for: its label, or the tracked branch
/// where it has none or an empty one.
pub open spec fn requested_name(git: GitConfig, label: Option<Seq<char>>) -> Seq<char> {
    match label {
        Some(l) => if l.len() > 0 {
            l
        } else {
            git.branch@
        },
        None => git.branch@,
    }
}

/// The references to try for a label, in order: the name itself, which
/// covers a local branch, then the remote-tracking reference of that name,
/// which covers what was never created locally.
pub open spec fn ref_candidates(git: GitConfig, label: Option<Seq<char>>) -> Seq<Seq<char>> {
    seq![requested_name(git, label), remote_ref(requested_name(git, label))]
}

/// The references to try for `label`, in order.
pub fn candidate_refs(git: &GitConfig, label: Option<&str>) -> (r: Vec<String>)
    ensures
        string_views(r@) == ref_candidates(*git, opt_view(label)),
{
    let name: String = match label {
        Some(l) => if l.is_empty() {
            git.branch.clone()
        } else {
            l.to_owned()
        },
        None => git.branch.clone(),
    };
    let remote = remote_ref_of(name.as_str());
    let mut r: Vec<String> = Vec::new();
    r.push(name);
    r.push(remote);
    assert(string_views(r@) =~= ref_candidates(*git, opt_view(label)));
    r
}

/// The text with every backslash turned into a slash.
pub open spec fn forward_slashes(text: Seq<char>) -> Seq<char> {
    Seq::new(
        text.len(),
        |i: int|
            if text[i] == '\\' {
                '/'
            } else {
                text[i]
            },
    )
}

/// `rel` below the directory `base`: the two joined by a slash, which is
/// left out where `base` is empty or ends in one.
pub open spec fn joined_path(base: Seq<char>, rel: Seq<char>) -> Seq<char> {
    if base.len() == 0 || base.last() == '/' {
        base + rel
    } else {
        base + seq!['/'] + rel
    }
}

/// The path of an object inside the repository: the relative path below
/// the subpath of the endpoint, with slashes as separators.
pub open spec fn object_path_of(git: GitConfig, rel: Seq<char>) -> Seq<char> {
    forward_slashes(joined_path(git.subpath_text(), rel))
}

/// The path of an object always begins with the subpath of its endpoint:
/// whatever relative path is asked for, what is read lies below the subpath.
pub proof fn lemma_object_path_below_subpath(git: GitConfig, rel: Seq<char>)
    ensures
        forward_slashes(git.subpath_text()).is_prefix_of(object_path_of(git, rel)),
{
    let base = git.subpath_text();
    let whole = object_path_of(git, rel);
    assert(forward_slashes(base) =~= whole.subrange(0, base.len() as int));
}

/// Appends `text` to `out`, with every backslash turned into a slash.
fn push_with_slashes(out: &mut String, text: &str)
    ensures
        final(out)@ == old(out)@ + forward_slashes(text@),
{
    let chars = chars_of(text);
    let mut i: usize = 0;
    while i < chars.len()
        invariant
            i <= chars.len(),
            chars@ == text@,
            out@ == old(out)@ + forward_slashes(text@).take(i as int),
        decreases chars.len() - i,
    {
        let c = chars[i];
        if c == '\\' {
            out.push('/');
        } else {
            out.push(c);
        }
        i += 1;
        assert(out@ =~= old(out)@ + forward_slashes(text@).take(i as int));
    }
    assert(forward_slashes(text@).take(chars.len() as int) =~= forward_slashes(text@));
}

/// The subpath of the endpoint with slashes as separators; empty where
/// the endpoint has none.
pub fn subpath_with_slashes(git: &GitConfig) -> (r: String)
    ensures
        r@ == forward_slashes(git.subpath_text()),
{
    let mut r = String::new();
    match &git.subpath {
        Some(sub) => {
            push_with_slashes(&mut r, sub.as_str());
            assert(r@ =~= forward_slashes(git.subpath_text()));
        },
        None => {
            assert(r@ =~= forward_slashes(git.subpath_text()));
        },
    }
    r
}

/// The path of the object that `rel_path` names inside the repository.
pub fn object_path(git: &GitConfig, rel_path: &str) -> (r: String)
    ensures
        r@ == object_path_of(*git, rel_path@),
{
    let mut r = subpath_with_slashes(git);
    let ghost base = git.subpath_text();
    let needs_slash = match &git.subpath {
        Some(sub) => {
            let chars = chars_of(sub.as_str());
            chars.len() > 0 && chars[chars.len() - 1] != '/'
        },
        None => false,
    };
    if needs_slash {
        r.push('/');
    }
    push_with_slashes(&mut r, rel_path);
    assert(r@ =~= object_path_of(*git, rel_path@));
    r
}

/// What a lookup asks git about a reference.
#[derive(Clone, Debug, PartialEq, Eq)]
pub enum GitQuery {
    /// The hash of the commit.
    CommitHash,
    /// The date of the commit.
    CommitDate,
    /// The content of the file at `path`, a path inside the repository.
    File { path: String },
}

impl GitQuery {
    /// The arguments of the command that asks this about `reference`.
    pub open spec fn args(self, git: GitConfig, reference: Seq<char>) -> Seq<Seq<char>> {
        match self {
            GitQuery::CommitHash => rev_parse_args(git, reference),
            GitQuery::CommitDate => commit_date_args(git, reference),
            GitQuery::File { path } => show_file_args(git, reference, path@),
        }
    }

    /// The stage that an error of this query names.
    pub open spec fn stage(self) -> GitStage {
        match self {
            GitQuery::CommitHash => GitStage::RevParse,
            _ => GitStage::Show,
        }
    }

    /// The command that asks this about `reference`.
    pub fn command(&self, git: &GitConfig, reference: &str) -> (r: GitCommand)
        ensures
            r@ == self.args(*git, reference@),
    {
        match self {
            GitQuery::CommitHash => rev_parse_command(git, reference),
            GitQuery::CommitDate => commit_date_command(git, reference),
            GitQuery::File { path } => show_file_command(git, reference, path.as_str()),
        }
    }

    /// The stage that an error of this query names.
    pub fn git_stage(&self) -> (r: GitStage)
        ensures
            r == self.stage(),
    {
        match self {
            GitQuery::CommitHash => GitStage::RevParse,
            _ => GitStage::Show,
        }
    }
}

/// Every query on a mirror runs inside the working directory of its own
/// endpoint: the command begins with `-C` and that directory, whatever the
/// reference and the path are.
pub proof fn lemma_query_stays_in_workdir(git: GitConfig, query: GitQuery, reference: Seq<char>)
    ensures
        query.args(git, reference).len() >= 2,
        query.args(git, reference)[0] == "-C"@,
        query.args(git, reference)[1] == git.workdir@,
{
}

/// Where a lookup stands: the references are tried in order, and the first
/// one for which the command succeeds wins.
#[derive(Debug, PartialEq, Eq)]
pub enum Lookup {
    /// Run `command`, which asks about the candidate at position
    /// `candidate`, and report its outcome.
    Ask { candidate: usize, command: GitCommand },
    /// The candidate at position `candidate` resolved; `stdout` is what the
    /// command printed.
    Found { candidate: usize, stdout: Vec<u8> },
    /// No candidate resolved. `error` is the failure of the last one.
    Missing { error: ServerError },
}

/// Begins a lookup with the first candidate. Without candidates there is
/// nothing to find.
pub fn begin_lookup(git: &GitConfig, query: &GitQuery, candidates: &Vec<String>) -> (r: Lookup)
    ensures
        candidates.len() == 0 ==> r == (Lookup::Missing { error: ServerError::NotFound }),
        candidates.len() > 0 ==> (r matches Lookup::Ask { candidate, command } && candidate == 0
            && command@ == query.args(*git, candidates[0]@)),
{
    if candidates.len() == 0 {
        Lookup::Missing { error: ServerError::NotFound }
    } else {
        Lookup::Ask { candidate: 0, command: query.command(git, candidates[0].as_str()) }
    }
}

/// Continues a lookup after the command for the candidate at position
/// `candidate` ended with `output`. Success ends the lookup with what the
/// command printed. After a failure the next candidate is tried; the failure
/// of the last candidate ends the lookup, and is kept as the reason.
pub fn continue_lookup(
    git: &GitConfig,
    query: &GitQuery,
    candidates: &Vec<String>,
    candidate: usize,
    output: GitOutput,
) -> (r: Lookup)
    ensures
        candidate >= candidates.len() ==> r == (Lookup::Missing { error: ServerError::NotFound }),
        candidate < candidates.len() && output.success ==> r == (Lookup::Found {
            candidate,
            stdout: output.stdout,
        }),
        candidate + 1 < candidates.len() && !output.success ==> (r matches Lookup::Ask {
            candidate: following,
            command,
        } && following == candidate + 1 && command@ == query.args(
            *git,
            candidates[candidate + 1]@,
        )),
        candidate + 1 == candidates.len() && !output.success ==> (r matches Lookup::Missing {
            error: ServerError::Git { stage, target, stderr },
        } && stage == query.stage() && target@ == candidates[candidate as int]@ && stderr@
            == trimmed(output.stderr@)),
{
    if candidate >= candidates.len() {
        Lookup::Missing { error: ServerError::NotFound }
    } else if output.success {
        Lookup::Found { candidate, stdout: output.stdout }
    } else if candidate + 1 < candidates.len() {
        Lookup::Ask {
            candidate: candidate + 1,
            command: query.command(git, candidates[candidate + 1].as_str()),
        }
    } else {
        Lookup::Missing {
            error: git_failure(query.git_stage(), candidates[candidate].as_str(), &output),
        }
    }
}

/// The text that a command printed about a commit: its output, which must
/// be UTF-8, without surrounding whitespace.
pub fn commit_text(stdout: &Vec<u8>) -> (r: Result<String, ServerError>)
    ensures
        r is Ok <==> valid_utf8(stdout@),
        r matches Ok(text) ==> text@ == trimmed(decode_utf8(stdout@)),
        r matches Err(e) ==> e == ServerError::Utf8,
{
    match utf8_text(stdout) {
        Some(printed) => Ok(
            string_of(&strip_chars(&chars_of(printed.as_str()), CharSet::Whitespace)),
        ),
        None => Err(ServerError::Utf8),
    }
}

/// The version that a response carries: the resolved commit, or the empty
/// text where the lookup failed. A reference that does not resolve never
/// keeps a configuration from being delivered.
pub fn version_or_empty(resolved: Result<String, ServerError>) -> (r: String)
    ensures
        resolved matches Ok(v) ==> r == v,
        resolved is Err ==> r@.len() == 0,
{
    match resolved {
        Ok(v) => v,
        Err(_) => String::new(),
    }
}

/// What a file read gives after its lookup ended: the bytes of the file,
/// or `None` where no candidate reference holds it.
pub fn file_content(lookup: Lookup) -> (r: Option<Vec<u8>>)
    ensures
        lookup matches Lookup::Found { candidate, stdout } ==> r == Some(stdout),
        !(lookup is Found) ==> r is None,
{
    match lookup {
        Lookup::Found { candidate, stdout } => Some(stdout),
        _ => None,
    }
}

/// The start of every listed path that lies below the subpath of the
/// endpoint: the subpath with slashes as separators, and a slash. An
/// endpoint without a subpath has none.
pub open spec fn subpath_prefix(git: GitConfig) -> Option<Seq<char>> {
    match git.subpath {
        Some(sub) => Some(forward_slashes(sub@) + seq!['/']),
        None => None,
    }
}

/// What one line of a tree listing contributes. Surrounding whitespace is
/// dropped and a blank line gives nothing. Without a prefix the rest is the
/// entry; with one, only a path that begins with the prefix gives an entry:
/// what follows the prefix.
pub open spec fn listed_entry(line: Seq<char>, prefix: Option<Seq<char>>) -> Option<Seq<char>> {
    let name = trimmed(line);
    if name.len() == 0 {
        None
    } else {
        match prefix {
            None => Some(name),
            Some(p) => if p.is_prefix_of(name) {
                Some(name.skip(p.len() as int))
            } else {
                None
            },
        }
    }
}

/// The entries that the lines of a tree listing contribute, in order.
pub open spec fn listed_entries(lines: Seq<Seq<char>>, prefix: Option<Seq<char>>) -> Seq<Seq<char>>
    decreases lines.len(),
{
    if lines.len() == 0 {
        Seq::<Seq<char>>::empty()
    } else {
        let before = listed_entries(lines.drop_last(), prefix);
        match listed_entry(lines.last(), prefix) {
            Some(entry) => before.push(entry),
            None => before,
        }
    }
}

/// Every entry of a listing below a prefix comes from a line that names a
/// path which begins with that prefix: nothing outside the subpath is ever
/// listed.
pub proof fn lemma_listing_stays_below_prefix(lines: Seq<Seq<char>>, prefix: Seq<char>, i: int)
    requires
        0 <= i < listed_entries(lines, Some(prefix)).len(),
    ensures
        exists|j: int|
            0 <= j < lines.len() && trimmed(#[trigger] lines[j]) == prefix + listed_entries(
                lines,
                Some(prefix),
            )[i],
    decreases lines.len(),
{
    let front = lines.drop_last();
    let before = listed_entries(front, Some(prefix));
    if i < before.len() {
        lemma_listing_stays_below_prefix(front, prefix, i);
        let j = choose|j: int|
            0 <= j < front.len() && trimmed(#[trigger] front[j]) == prefix + before[i];
        assert(lines[j] == front[j]);
    } else {
        let name = trimmed(lines.last());
        assert(name =~= prefix + name.skip(prefix.len() as int));
        assert(trimmed(lines[lines.len() - 1]) == prefix + listed_entries(lines, Some(prefix))[i]);
    }
}

/// The files of a tree listing, each relative to the subpath of the
/// endpoint. Paths outside the subpath are dropped.
pub fn parse_listing(git: &GitConfig, printed: &str) -> (r: Vec<String>)
    ensures
        string_views(r@) == listed_entries(
            split_on(printed@, CharSet::Only('\n')),
            subpath_prefix(*git),
        ),
{
    let prefix: Option<Vec<char>> = match &git.subpath {
        Some(_) => {
            let mut p = subpath_with_slashes(git);
            p.push('/');
            Some(chars_of(p.as_str()))
        },
        None => None,
    };
    let ghost want = subpath_prefix(*git);
    assert(match prefix {
        Some(p) => want == Some(p@),
        None => want is None,
    });
    let chars = chars_of(printed);
    let lines = split_chars(&chars, CharSet::Only('\n'));
    let ghost all = split_on(printed@, CharSet::Only('\n'));
    let mut files: Vec<String> = Vec::new();
    let mut i: usize = 0;
    assert(string_views(files@) =~= listed_entries(all.take(0), want));
    while i < lines.len()
        invariant
            i <= lines.len(),
            vec_views(lines@) == all,
            match prefix {
                Some(p) => want == Some(p@),
                None => want is None,
            },
            string_views(files@) == listed_entries(all.take(i as int), want),
        decreases lines.len() - i,
    {
        let line = &lines[i];
        proof {
            assert(all.take(i + 1).drop_last() =~= all.take(i as int));
            assert(all.take(i + 1).last() == line@);
            assert(line@.subrange(0, line@.len() as int) =~= line@);
        }
        let ghost before = string_views(files@);
        let (a, b) = strip_bounds(line, 0, line.len(), CharSet::Whitespace);
        if a < b {
            let name = copy_range(line, a, b);
            match &prefix {
                Some(p) => {
                    if has_prefix(&name, p) {
                        let entry = string_of(&copy_range(&name, p.len(), name.len()));
                        assert(entry@ =~= name@.skip(p@.len() as int));
                        files.push(entry);
                        assert(string_views(files@) =~= before.push(entry@));
                    }
                },
                None => {
                    let entry = string_of(&name);
                    files.push(entry);
                    assert(string_views(files@) =~= before.push(entry@));
                },
            }
        }
        i += 1;
    }
    assert(all.take(lines.len() as int) =~= all);
    files
}

/// `git ls-tree` takes no revision in its error.
pub open spec fn no_target() -> Seq<char> {
    Seq::<char>::empty()
}

/// What the outcome of the listing command means. A command that failed is
/// an error that names the stage and carries the trimmed standard error;
/// output that is not UTF-8 is an error too. Otherwise the printed paths are
/// the files.
pub fn list_files(git: &GitConfig, output: GitOutput) -> (r: Result<Vec<String>, ServerError>)
    ensures
        r is Ok <==> output.success && valid_utf8(output.stdout@),
        r matches Ok(files) ==> string_views(files@) == listed_entries(
            split_on(decode_utf8(output.stdout@), CharSet::Only('\n')),
            subpath_prefix(*git),
        ),
        !output.success ==> (r matches Err(ServerError::Git { stage, target, stderr }) && stage
            == GitStage::ListTree && target@ == no_target() && stderr@ == trimmed(
            output.stderr@,
        )),
        output.success && !valid_utf8(output.stdout@) ==> r == Err::<Vec<String>, ServerError>(
            ServerError::Utf8,
        ),
{
    if !output.success {
        proof {
            reveal_strlit("");
        }
        return Err(git_failure(GitStage::ListTree, "", &output));
    }
    match utf8_text(&output.stdout) {
        Some(printed) => Ok(parse_listing(git, printed.as_str())),
        None => Err(ServerError::Utf8),
    }
}

} // verus!
