//! The error type of the library.

use vstd::prelude::*;
use vstd::string::*;

verus! {

/// The git operation that failed.
#[derive(Clone, Copy, Debug, PartialEq, Eq, Structural)]
pub enum GitStage {
    /// `git clone`
    Clone,
    /// `git fetch`
    Fetch,
    /// `git reset --hard`
    Reset,
    /// `git rev-parse`
    RevParse,
    /// `git show`
    Show,
    /// `git ls-tree`
    ListTree,
}

/// Why a request or a refresh failed.
#[derive(Clone, Debug, PartialEq, Eq)]
pub enum ServerError {
    /// A file or a process could not be read or run.
    Io(String),
    /// A configuration file is not a YAML document.
    Yaml(String),
    /// A value could not be written as JSON.
    Json(String),
    /// Bytes that had to be text are not UTF-8.
    Utf8,
    /// A git command ended with a failure status. `target` is the revision
    /// that the command was given, empty where it takes none; `stderr` is
    /// what the command wrote to its standard error, trimmed.
    Git { stage: GitStage, target: String, stderr: String },
    /// The environment, the file or the reference does not exist.
    NotFound,
    /// The request is malformed.
    BadRequest(String),
    /// Anything else.
    Other(String),
}

impl GitStage {
    /// The words that name the command in a message.
    pub open spec fn words(self) -> Seq<char> {
        match self {
            GitStage::Clone => "git clone"@,
            GitStage::Fetch => "git fetch"@,
            GitStage::Reset => "git reset --hard"@,
            GitStage::RevParse => "git rev-parse"@,
            GitStage::Show => "git show"@,
            GitStage::ListTree => "git ls-tree"@,
        }
    }

    /// The words that name the command in a message.
    pub fn name(&self) -> (r: &'static str)
        ensures
            r@ == self.words(),
    {
        match self {
            GitStage::Clone => "git clone",
            GitStage::Fetch => "git fetch",
            GitStage::Reset => "git reset --hard",
            GitStage::RevParse => "git rev-parse",
            GitStage::Show => "git show",
            GitStage::ListTree => "git ls-tree",
        }
    }
}

/// The text of a git failure: the command, the revision where there is one,
/// and what the command wrote to its standard error.
pub open spec fn git_failure_text(stage: GitStage, target: Seq<char>, stderr: Seq<char>) -> Seq<
    char,
> {
    if target.len() == 0 {
        stage.words() + " failed: "@ + stderr
    } else {
        stage.words() + " "@ + target + " failed: "@ + stderr
    }
}

impl ServerError {
    /// The text of the error.
    pub open spec fn text(self) -> Seq<char> {
        match self {
            ServerError::Io(m) => "IO error: "@ + m@,
            ServerError::Yaml(m) => "YAML error: "@ + m@,
            ServerError::Json(m) => "JSON error: "@ + m@,
            ServerError::Utf8 => "UTF-8 error: invalid utf-8 sequence"@,
            ServerError::Git { stage, target, stderr } => "Git error: "@ + git_failure_text(
                stage,
                target@,
                stderr@,
            ),
            ServerError::NotFound => "Not found"@,
            ServerError::BadRequest(m) => "Bad request: "@ + m@,
            ServerError::Other(m) => "Other error: "@ + m@,
        }
    }

    /// The HTTP status that answers a request which failed with this error:
    /// 404 where something does not exist, 400 for a malformed request, 500
    /// for everything else.
    pub open spec fn status(self) -> u16 {
        match self {
            ServerError::NotFound => 404,
            ServerError::BadRequest(_) => 400,
            _ => 500,
        }
    }

    /// The text of the error.
    pub fn message(&self) -> (r: String)
        ensures
            r@ == self.text(),
    {
        match self {
            ServerError::Io(m) => {
                let mut r = "IO error: ".to_owned();
                r.append(m.as_str());
                r
            },
            ServerError::Yaml(m) => {
                let mut r = "YAML error: ".to_owned();
                r.append(m.as_str());
                r
            },
            ServerError::Json(m) => {
                let mut r = "JSON error: ".to_owned();
                r.append(m.as_str());
                r
            },
            ServerError::Utf8 => "UTF-8 error: invalid utf-8 sequence".to_owned(),
            ServerError::Git { stage, target, stderr } => {
                let mut r = "Git error: ".to_owned();
                r.append(stage.name());
                if !target.as_str().is_empty() {
                    r.append(" ");
                    r.append(target.as_str());
                }
                r.append(" failed: ");
                r.append(stderr.as_str());
                assert(r@ =~= self.text());
                r
            },
            ServerError::NotFound => "Not found".to_owned(),
            ServerError::BadRequest(m) => {
                let mut r = "Bad request: ".to_owned();
                r.append(m.as_str());
                r
            },
            ServerError::Other(m) => {
                let mut r = "Other error: ".to_owned();
                r.append(m.as_str());
                r
            },
        }
    }

    /// The HTTP status that answers a request which failed with this error.
    pub fn http_status(&self) -> (r: u16)
        ensures
            r == self.status(),
    {
        match self {
            ServerError::NotFound => 404,
            ServerError::BadRequest(_) => 400,
            _ => 500,
        }
    }
}

} // verus!
