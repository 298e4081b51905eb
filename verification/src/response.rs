//! The answers of the server: the envelope of a configuration lookup, the
//! body of a not-found answer, and the decision which answer a request
//! gets.

use crate::assembler::{
    assemble, assembled, lemma_nothing_found, parse_profiles, profiles_of, Unreadable,
};
use crate::auth::{check_basic_auth, is_authorized};
use crate::config::{normalize_base_path, normalized_base_path, GitConfig};
use crate::environment::{AppState, EnvState};
use crate::error::ServerError;
use crate::properties::PropertyMap;
use crate::template::TemplateEngine;
use crate::reader::version_or_empty;
use crate::text::{opt_view, string_views};
use vstd::prelude::*;
use vstd::string::*;

verus! {

/// One source of properties in the envelope.
#[derive(Debug)]
pub struct SpringPropertySource {
    /// Where the properties come from.
    pub name: String,
    /// The merged properties.
    pub source: PropertyMap,
}

/// The envelope of a configuration lookup.
#[derive(Debug)]
pub struct SpringEnvResponse {
    /// The application that was asked for.
    pub name: String,
    /// The profiles that were asked for.
    pub profiles: Vec<String>,
    /// The label that was asked for, if any.
    pub label: Option<String>,
    /// The commit that the label resolved to, empty where it did not.
    pub version: String,
    /// Always empty.
    pub state: String,
    /// No source where no file was found, else one.
    pub property_sources: Vec<SpringPropertySource>,
}

/// The identity of the property source of an endpoint:
/// `git:{repo_url}{/subpath}:{profiles}`, where `profiles` is the profile
/// list as the request wrote it.
pub open spec fn source_name_of(git: GitConfig, profile_str: Seq<char>) -> Seq<char> {
    match git.subpath {
        Some(sub) => "git:"@ + git.repo_url@ + seq!['/'] + sub@ + seq![':'] + profile_str,
        None => "git:"@ + git.repo_url@ + seq![':'] + profile_str,
    }
}

/// The identity of the property source of `git` for the profile list
/// `profile_str`.
pub fn property_source_name(git: &GitConfig, profile_str: &str) -> (r: String)
    ensures
        r@ == source_name_of(*git, profile_str@),
{
    let mut r = "git:".to_owned();
    r.append(git.repo_url.as_str());
    match &git.subpath {
        Some(sub) => {
            r.push('/');
            r.append(sub.as_str());
        },
        None => {},
    }
    r.push(':');
    r.append(profile_str);
    assert(r@ =~= source_name_of(*git, profile_str@));
    r
}

/// Builds the envelope of a configuration lookup from what the engine
/// found: the merged properties, whether any file was found, and the
/// outcome of resolving the version. Without any file the envelope has no
/// property source; a version that did not resolve is empty.
pub fn build_env_response(
    git: &GitConfig,
    application: &str,
    profile_str: &str,
    label: Option<&str>,
    properties: PropertyMap,
    found_any: bool,
    version: Result<String, ServerError>,
) -> (r: SpringEnvResponse)
    ensures
        r.name@ == application@,
        string_views(r.profiles@) == profiles_of(profile_str@),
        match label {
            Some(l) => r.label matches Some(kept) && kept@ == l@,
            None => r.label is None,
        },
        match version {
            Ok(v) => r.version == v,
            Err(_) => r.version@.len() == 0,
        },
        r.state@.len() == 0,
        !found_any ==> r.property_sources@.len() == 0,
        found_any ==> r.property_sources@.len() == 1 && r.property_sources@[0].name@
            == source_name_of(*git, profile_str@) && r.property_sources@[0].source == properties,
{
    let mut property_sources: Vec<SpringPropertySource> = Vec::new();
    if found_any {
        property_sources.push(
            SpringPropertySource {
                name: property_source_name(git, profile_str),
                source: properties,
            },
        );
    }
    SpringEnvResponse {
        name: application.to_owned(),
        profiles: parse_profiles(profile_str),
        label: match label {
            Some(l) => Some(l.to_owned()),
            None => None,
        },
        version: version_or_empty(version),
        state: String::new(),
        property_sources,
    }
}

/// Answers a configuration lookup from what reading the mirror gave:
/// `files` holds for each candidate file, in merge order, its bytes or
/// `None` if it does not exist, and `version` is the outcome of resolving the
/// label to a commit.
///
/// The files that exist are merged, later ones over earlier ones, and the
/// envelope carries the result as its one property source. Where no
/// candidate exists the lookup still succeeds, with an envelope without any
/// property source. A file that cannot be merged fails the lookup; a version
/// that did not resolve does not.
pub fn handle_spring_request(
    engine: &TemplateEngine,
    env_state: &EnvState,
    application: &str,
    profile_str: &str,
    label: Option<&str>,
    files: &Vec<Option<Vec<u8>>>,
    version: Result<String, ServerError>,
) -> (r: Result<SpringEnvResponse, ServerError>)
    ensures
        match assembled(engine.pattern(), env_state.env_map@, files@) {
            Ok((properties, found_any)) => {
                &&& r matches Ok(response)
                &&& response.name@ == application@
                &&& string_views(response.profiles@) == profiles_of(profile_str@)
                &&& match label {
                    Some(l) => response.label matches Some(kept) && kept@ == l@,
                    None => response.label is None,
                }
                &&& match version {
                    Ok(v) => response.version == v,
                    Err(_) => response.version@.len() == 0,
                }
                &&& response.state@.len() == 0
                &&& !found_any ==> response.property_sources@.len() == 0
                &&& found_any ==> response.property_sources@.len() == 1
                    && response.property_sources@[0].name@ == source_name_of(
                    env_state.git,
                    profile_str@,
                ) && response.property_sources@[0].source@ == properties
            },
            Err(Unreadable::NotText) => r matches Err(e) && e == ServerError::Utf8,
            Err(Unreadable::NotYaml) => r matches Err(e) && e is Yaml,
        },
        (forall|i: int| 0 <= i < files@.len() ==> files@[i] is None) ==> (r matches Ok(response)
            && response.property_sources@.len() == 0),
{
    proof {
        if forall|i: int| 0 <= i < files@.len() ==> files@[i] is None {
            lemma_nothing_found(engine.pattern(), env_state.env_map@, files@);
        }
    }
    match assemble(engine, &env_state.env_map, files) {
        Ok((properties, found_any)) => Ok(
            build_env_response(
                &env_state.git,
                application,
                profile_str,
                label,
                properties,
                found_any,
                version,
            ),
        ),
        Err(e) => Err(e),
    }
}

/// The body of a not-found answer.
#[derive(Clone, Debug, PartialEq, Eq)]
pub struct NotFoundBody {
    /// When the answer was made.
    pub timestamp: String,
    /// 404.
    pub status: u16,
    /// `Not Found`.
    pub error: String,
    /// The path that was asked for.
    pub path: String,
}

/// The current time in UTC as RFC 3339 with milliseconds and `Z`, from the
/// `chrono` crate. Nothing is claimed of it: it is what the clock says.
#[verifier::external_body]
fn utc_timestamp() -> (r: String) {
    chrono::Utc::now().to_rfc3339_opts(chrono::SecondsFormat::Millis, true)
}

/// The body of a not-found answer for `path`, made at `timestamp`.
pub fn not_found_body(timestamp: String, path: &str) -> (r: NotFoundBody)
    ensures
        r.timestamp == timestamp,
        r.status == 404,
        r.error@ == "Not Found"@,
        r.path@ == path@,
{
    NotFoundBody { timestamp, status: 404, error: "Not Found".to_owned(), path: path.to_owned() }
}

/// The body of a not-found answer for `path`, made now.
pub fn spring_not_found(path: &str) -> (r: NotFoundBody)
    ensures
        r.status == 404,
        r.error@ == "Not Found"@,
        r.path@ == path@,
{
    not_found_body(utc_timestamp(), path)
}

/// The path of a route: a slash before each of its segments.
pub open spec fn route_of(segments: Seq<Seq<char>>) -> Seq<char>
    decreases segments.len(),
{
    if segments.len() == 0 {
        Seq::<char>::empty()
    } else {
        route_of(segments.drop_last()) + seq!['/'] + segments.last()
    }
}

/// The path of the route with the given segments, as a not-found answer
/// reports it.
pub fn route_path(segments: &Vec<String>) -> (r: String)
    ensures
        r@ == route_of(string_views(segments@)),
{
    let ghost all = string_views(segments@);
    let mut r = String::new();
    let mut i: usize = 0;
    assert(all.take(0) =~= Seq::<Seq<char>>::empty());
    while i < segments.len()
        invariant
            i <= segments.len(),
            all == string_views(segments@),
            r@ == route_of(all.take(i as int)),
        decreases segments.len() - i,
    {
        proof {
            assert(all.take(i + 1).drop_last() =~= all.take(i as int));
            assert(all.take(i + 1).last() == segments@[i as int]@);
        }
        r.push('/');
        r.append(segments[i].as_str());
        i += 1;
    }
    assert(all.take(segments.len() as int) =~= all);
    r
}

/// Why a request is turned away before it reaches an environment.
#[derive(Clone, Copy, Debug, PartialEq, Eq, Structural)]
pub enum Denial {
    /// The credentials are missing or wrong: status 401.
    Unauthorized,
    /// No environment has the name: status 404.
    UnknownEnvironment,
}

/// Decides whether a request reaches the environment that it names. The
/// credentials are checked first; then the environment is looked up under
/// its name, and no other environment is ever returned.
pub fn authorize_request<'a>(state: &'a AppState, authorization: Option<&str>, env: &str) -> (r: Result<
    &'a EnvState,
    Denial,
>)
    ensures
        !is_authorized(state.auth, opt_view(authorization)) ==> r == Err::<&EnvState, Denial>(Denial::Unauthorized),
        is_authorized(state.auth, opt_view(authorization)) && !state.envs.knows(env@) ==> r == Err::<&EnvState, Denial>(Denial::UnknownEnvironment),
        is_authorized(state.auth, opt_view(authorization)) && state.envs.knows(env@) ==> (r matches Ok(found) && found.name@ == env@
            && state.envs.listing().contains(*found)),
{
    if !check_basic_auth(&state.auth, authorization) {
        return Err(Denial::Unauthorized);
    }
    match state.envs.lookup(env) {
        Some(found) => Ok(found),
        None => Err(Denial::UnknownEnvironment),
    }
}

/// The answer that a request gets.
#[derive(Debug)]
pub enum Reply<T> {
    /// Status 200 with the result.
    Success(T),
    /// Status 400 with the message of the error.
    BadRequest(String),
    /// Status 401.
    Unauthorized,
    /// Status 404 with the not-found body.
    NotFound,
    /// Status 500. Nothing of the error is shown.
    InternalError,
}

impl<T> Reply<T> {
    /// The HTTP status of the answer.
    pub open spec fn status(self) -> u16 {
        match self {
            Reply::Success(_) => 200,
            Reply::BadRequest(_) => 400,
            Reply::Unauthorized => 401,
            Reply::NotFound => 404,
            Reply::InternalError => 500,
        }
    }

    /// The HTTP status of the answer.
    pub fn status_code(&self) -> (r: u16)
        ensures
            r == self.status(),
    {
        match self {
            Reply::Success(_) => 200,
            Reply::BadRequest(_) => 400,
            Reply::Unauthorized => 401,
            Reply::NotFound => 404,
            Reply::InternalError => 500,
        }
    }
}

/// The answer for a request that was turned away.
pub fn deny<T>(denial: Denial) -> (r: Reply<T>)
    ensures
        denial == Denial::Unauthorized ==> r is Unauthorized,
        denial == Denial::UnknownEnvironment ==> r is NotFound,
{
    match denial {
        Denial::Unauthorized => Reply::Unauthorized,
        Denial::UnknownEnvironment => Reply::NotFound,
    }
}

/// The answer for the outcome of a request that reached its environment:
/// the result where there is one, not-found where something does not
/// exist, bad-request with its message for a malformed request, and an
/// internal error, without any detail, for everything else.
pub fn reply_to<T>(outcome: Result<T, ServerError>) -> (r: Reply<T>)
    ensures
        match outcome {
            Ok(value) => r == Reply::Success(value),
            Err(ServerError::NotFound) => r is NotFound,
            Err(ServerError::BadRequest(message)) => r == Reply::<T>::BadRequest(message),
            Err(_) => r is InternalError,
        },
        outcome matches Err(e) ==> r.status() == e.status(),
        outcome is Ok ==> r.status() == 200,
{
    match outcome {
        Ok(value) => Reply::Success(value),
        Err(ServerError::NotFound) => Reply::NotFound,
        Err(ServerError::BadRequest(message)) => Reply::BadRequest(message),
        Err(_) => Reply::InternalError,
    }
}

/// What the dashboard shows of one environment.
#[derive(Clone, Debug, PartialEq, Eq)]
pub struct EnvMeta {
    pub name: String,
    pub repo_url: String,
    pub branch: String,
    pub workdir: String,
    /// The subpath, empty where the endpoint has none.
    pub subpath: String,
    /// The commit at the tip of the tracked branch, empty where it could
    /// not be resolved.
    pub last_commit: String,
    /// The date of that commit, empty where it could not be resolved.
    pub last_commit_date: String,
}

/// What the dashboard shows.
#[derive(Clone, Debug, PartialEq, Eq)]
pub struct UiMeta {
    /// The path prefix of the routes, in its normal form.
    pub base_path: String,
    pub environments: Vec<EnvMeta>,
    /// Whether requests must carry credentials.
    pub auth_enabled: bool,
}

/// The metadata of one environment. A commit or a date that could not be
/// resolved is shown as empty.
pub fn env_meta(
    env: &EnvState,
    last_commit: Result<String, ServerError>,
    last_commit_date: Result<String, ServerError>,
) -> (r: EnvMeta)
    ensures
        r.name@ == env.name@,
        r.repo_url@ == env.git.repo_url@,
        r.branch@ == env.git.branch@,
        r.workdir@ == env.git.workdir@,
        r.subpath@ == env.git.subpath_text(),
        match last_commit {
            Ok(v) => r.last_commit == v,
            Err(_) => r.last_commit@.len() == 0,
        },
        match last_commit_date {
            Ok(v) => r.last_commit_date == v,
            Err(_) => r.last_commit_date@.len() == 0,
        },
{
    EnvMeta {
        name: env.name.clone(),
        repo_url: env.git.repo_url.clone(),
        branch: env.git.branch.clone(),
        workdir: env.git.workdir.clone(),
        subpath: match &env.git.subpath {
            Some(sub) => sub.clone(),
            None => String::new(),
        },
        last_commit: version_or_empty(last_commit),
        last_commit_date: version_or_empty(last_commit_date),
    }
}

/// The metadata snapshot that the dashboard reads.
pub fn ui_meta(state: &AppState, environments: Vec<EnvMeta>) -> (r: UiMeta)
    ensures
        r.base_path@ == normalized_base_path(state.http.base_path@),
        r.environments == environments,
        r.auth_enabled == state.auth.required,
{
    UiMeta {
        base_path: normalize_base_path(state.http.base_path.as_str()),
        environments,
        auth_enabled: state.auth.required,
    }
}

} // verus!
