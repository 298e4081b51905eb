//! Startup configuration: the git endpoint of an environment, the HTTP
//! settings and the credentials that guard the routes.

use crate::text::{chars_of, push_range, strip, strip_bounds, trimmed, CharSet};
use vstd::prelude::*;
use vstd::string::*;

verus! {

/// The shortest time, in seconds, between two refreshes of a mirror.
pub const MIN_REFRESH_INTERVAL_SECS: u64 = 30;

/// The refresh interval of an endpoint whose configuration names none.
pub fn default_refresh_interval() -> (r: u64)
    ensures
        r == 30,
{
    30
}

/// The path prefix of the routes where the configuration names none.
pub fn default_base_path() -> (r: String)
    ensures
        r@ == "/"@,
{
    "/".to_owned()
}

/// The git endpoint of one environment.
#[derive(Debug, PartialEq, Eq)]
pub struct GitConfig {
    /// Where the repository is cloned from.
    pub repo_url: String,
    /// The branch that the mirror tracks.
    pub branch: String,
    /// The directory of the local mirror.
    pub workdir: String,
    /// The directory inside the repository that holds this environment's
    /// files, if it is not the root.
    pub subpath: Option<String>,
    /// Seconds between two refreshes of the mirror.
    pub refresh_interval_secs: u64,
}

impl Clone for GitConfig {
    fn clone(&self) -> (r: Self)
        ensures
            r == *self,
    {
        GitConfig {
            repo_url: self.repo_url.clone(),
            branch: self.branch.clone(),
            workdir: self.workdir.clone(),
            subpath: match &self.subpath {
                Some(s) => Some(s.clone()),
                None => None,
            },
            refresh_interval_secs: self.refresh_interval_secs,
        }
    }
}

impl GitConfig {
    /// The refresh period: the configured interval, but not less than
    /// [`MIN_REFRESH_INTERVAL_SECS`].
    pub open spec fn refresh_period(self) -> u64 {
        if self.refresh_interval_secs < MIN_REFRESH_INTERVAL_SECS {
            MIN_REFRESH_INTERVAL_SECS
        } else {
            self.refresh_interval_secs
        }
    }

    /// The number of seconds to wait between two refreshes of the mirror.
    pub fn effective_refresh_interval(&self) -> (r: u64)
        ensures
            r == self.refresh_period(),
            r >= MIN_REFRESH_INTERVAL_SECS,
            r >= self.refresh_interval_secs,
    {
        if self.refresh_interval_secs < MIN_REFRESH_INTERVAL_SECS {
            MIN_REFRESH_INTERVAL_SECS
        } else {
            self.refresh_interval_secs
        }
    }

    /// The subpath as text: empty where the endpoint has none.
    pub open spec fn subpath_text(self) -> Seq<char> {
        match self.subpath {
            Some(s) => s@,
            None => Seq::<char>::empty(),
        }
    }
}

/// The HTTP settings.
#[derive(Debug, PartialEq, Eq)]
pub struct HttpConfig {
    /// The address to listen on.
    pub bind_addr: String,
    /// The path prefix of all routes.
    pub base_path: String,
}

impl Clone for HttpConfig {
    fn clone(&self) -> (r: Self)
        ensures
            r == *self,
    {
        HttpConfig { bind_addr: self.bind_addr.clone(), base_path: self.base_path.clone() }
    }
}

/// The path prefix in its normal form: surrounding whitespace and slashes
/// are dropped and one slash is put in front; a prefix of which nothing is
/// left is `/`.
pub open spec fn normalized_base_path(base: Seq<char>) -> Seq<char> {
    let inner = strip(trimmed(base), CharSet::Only('/'));
    if inner.len() == 0 {
        seq!['/']
    } else {
        seq!['/'] + inner
    }
}

/// Brings a configured path prefix into its normal form.
pub fn normalize_base_path(base: &str) -> (r: String)
    ensures
        r@ == normalized_base_path(base@),
{
    let chars = chars_of(base);
    let (a, b) = strip_bounds(&chars, 0, chars.len(), CharSet::Whitespace);
    let (c, d) = strip_bounds(&chars, a, b, CharSet::Only('/'));
    let mut r = String::new();
    r.push('/');
    push_range(&mut r, &chars, c, d);
    proof {
        assert(chars@.subrange(0, chars@.len() as int) =~= chars@);
        assert(r@ =~= normalized_base_path(base@));
    }
    r
}

/// The credentials that guard the routes.
#[derive(Debug, PartialEq, Eq)]
pub struct AuthConfig {
    /// Whether requests must carry credentials.
    pub required: bool,
    pub username: String,
    pub password: String,
}

impl Clone for AuthConfig {
    fn clone(&self) -> (r: Self)
        ensures
            r == *self,
    {
        AuthConfig {
            required: self.required,
            username: self.username.clone(),
            password: self.password.clone(),
        }
    }
}

impl AuthConfig {
    /// Authentication is required exactly when both a user name and a
    /// password are configured; with either missing it is switched off.
    pub fn from_credentials(username: Option<String>, password: Option<String>) -> (r: Self)
        ensures
            r.required == (username is Some && password is Some),
            r.required ==> r.username == username->0 && r.password == password->0,
            !r.required ==> r.username@.len() == 0 && r.password@.len() == 0,
    {
        match (username, password) {
            (Some(u), Some(p)) => AuthConfig { required: true, username: u, password: p },
            _ => AuthConfig { required: false, username: String::new(), password: String::new() },
        }
    }
}

} // verus!
