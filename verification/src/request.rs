//! What a request needs from the mirror: the references to try and the
//! objects to read, worked out before any git command runs.

use crate::assembler::{candidate_files, candidate_names, parse_profiles, profiles_of};
use crate::config::GitConfig;
use crate::error::ServerError;
use crate::path::{validate_rel_path, validated};
use crate::reader::{candidate_refs, object_path, object_path_of, ref_candidates, GitQuery};
use crate::text::{opt_view, string_views};
use vstd::prelude::*;

verus! {

/// What a configuration lookup reads.
#[derive(Debug, PartialEq, Eq)]
pub struct ConfigPlan {
    /// The profiles of the request, in order.
    pub profiles: Vec<String>,
    /// The references to try, in order, for every read and for the version.
    pub references: Vec<String>,
    /// One query for each candidate file, in merge order.
    pub files: Vec<GitQuery>,
}

/// The query that reads the file at `path`, a path inside the repository.
pub open spec fn file_query(path: Seq<char>, query: GitQuery) -> bool {
    query matches GitQuery::File { path: p } && p@ == path
}

/// Plans a configuration lookup: the profiles that the request names, the
/// references to try for its label, and for every candidate file the query
/// that reads it below the subpath of the endpoint.
pub fn plan_config_request(
    git: &GitConfig,
    application: &str,
    profile_str: &str,
    label: Option<&str>,
) -> (r: ConfigPlan)
    ensures
        string_views(r.profiles@) == profiles_of(profile_str@),
        string_views(r.references@) == ref_candidates(*git, opt_view(label)),
        r.files@.len() == candidate_names(application@, profiles_of(profile_str@)).len(),
        forall|i: int|
            0 <= i < r.files@.len() ==> file_query(
                object_path_of(*git, candidate_names(application@, profiles_of(profile_str@))[i]),
                #[trigger] r.files@[i],
            ),
{
    let profiles = parse_profiles(profile_str);
    let names = candidate_files(application, &profiles);
    let ghost wanted = candidate_names(application@, profiles_of(profile_str@));
    let mut files: Vec<GitQuery> = Vec::new();
    let mut i: usize = 0;
    while i < names.len()
        invariant
            i <= names.len(),
            string_views(names@) == wanted,
            files@.len() == i,
            forall|k: int|
                0 <= k < i ==> file_query(object_path_of(*git, wanted[k]), #[trigger] files@[k]),
        decreases names.len() - i,
    {
        assert(wanted[i as int] == names@[i as int]@);
        files.push(GitQuery::File { path: object_path(git, names[i].as_str()) });
        i += 1;
    }
    ConfigPlan { profiles, references: candidate_refs(git, label), files }
}

/// What a request for a file reads.
#[derive(Debug, PartialEq, Eq)]
pub struct FilePlan {
    /// The path of the request in its clean form.
    pub path: String,
    /// The references to try, in order.
    pub references: Vec<String>,
    /// The query that reads the file.
    pub query: GitQuery,
}

/// Plans a request for the file at `rel_path` as of `label`. The path is
/// validated first: a path that is rejected is a bad request, and nothing
/// is read for it.
pub fn plan_file_request(git: &GitConfig, label: &str, rel_path: &str) -> (r: Result<
    FilePlan,
    ServerError,
>)
    ensures
        match validated(rel_path@) {
            Ok(clean) => r matches Ok(plan) && plan.path@ == clean && file_query(
                object_path_of(*git, clean),
                plan.query,
            ) && string_views(plan.references@) == ref_candidates(*git, Some(label@)),
            Err(message) => r matches Err(ServerError::BadRequest(m)) && m@ == message,
        },
{
    let path = match validate_rel_path(rel_path) {
        Ok(path) => path,
        Err(e) => {
            return Err(e);
        },
    };
    let query = GitQuery::File { path: object_path(git, path.as_str()) };
    Ok(FilePlan { path, references: candidate_refs(git, Some(label)), query })
}

} // verus!
