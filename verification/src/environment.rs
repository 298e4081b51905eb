//! The environments that the server knows: each with its git endpoint and
//! the variables that templates are filled from.

use crate::config::{AuthConfig, GitConfig, HttpConfig};
use crate::error::ServerError;
use crate::ordered_map::{entries_map, OrderedMap};
use crate::text::{
    chars_of, copy_range, find_char, opt_view, position_of, split_chars, split_on, string_of,
    strip_bounds, trimmed, vec_views, CharSet,
};
use vstd::prelude::*;
use vstd::string::*;

verus! {

/// Variables by name.
pub type EnvMap = OrderedMap<String>;

/// What one line of an environment file defines. A blank line, a line that
/// begins with `#` and a line without `=` define nothing. Any other line
/// gives the text before its first `=` as the name and the text after it as
/// the value, both without surrounding whitespace.
pub open spec fn env_line_entry(line: Seq<char>) -> Option<(Seq<char>, Seq<char>)> {
    let body = trimmed(line);
    let eq = position_of(body, '=');
    if body.len() == 0 || body[0] == '#' || eq >= body.len() {
        None
    } else {
        Some((trimmed(body.take(eq)), trimmed(body.skip(eq + 1))))
    }
}

/// The variables after the lines were read in order into `base`: a later
/// definition of a name replaces an earlier one.
pub open spec fn merged_env(base: Map<Seq<char>, Seq<char>>, lines: Seq<Seq<char>>) -> Map<
    Seq<char>,
    Seq<char>,
>
    decreases lines.len(),
{
    if lines.len() == 0 {
        base
    } else {
        let before = merged_env(base, lines.drop_last());
        match env_line_entry(lines.last()) {
            Some((name, value)) => before.insert(name, value),
            None => before,
        }
    }
}

/// The value that the last definition of `name` among `lines` gives it.
pub open spec fn last_definition(lines: Seq<Seq<char>>, name: Seq<char>) -> Option<Seq<char>>
    decreases lines.len(),
{
    if lines.len() == 0 {
        None
    } else {
        match env_line_entry(lines.last()) {
            Some((n, value)) => if n == name {
                Some(value)
            } else {
                last_definition(lines.drop_last(), name)
            },
            None => last_definition(lines.drop_last(), name),
        }
    }
}

/// A later source overrides an earlier one by name: after the lines of a
/// file were read, a name that the file defines has the value of its last
/// definition there, and every other name has what it had before.
pub proof fn lemma_later_source_overrides(
    base: Map<Seq<char>, Seq<char>>,
    lines: Seq<Seq<char>>,
    name: Seq<char>,
)
    ensures
        match last_definition(lines, name) {
            Some(value) => merged_env(base, lines).contains_key(name) && merged_env(
                base,
                lines,
            )[name] == value,
            None => merged_env(base, lines).contains_key(name) == base.contains_key(name) && (
            base.contains_key(name) ==> merged_env(base, lines)[name] == base[name]),
        },
    decreases lines.len(),
{
    if lines.len() > 0 {
        lemma_later_source_overrides(base, lines.drop_last(), name);
    }
}

/// The lines of a text: its pieces between line feeds.
pub open spec fn text_lines(text: Seq<char>) -> Seq<Seq<char>> {
    split_on(text, CharSet::Only('\n'))
}

/// What `line` defines.
fn parse_env_line(line: &Vec<char>) -> (r: Option<(String, String)>)
    ensures
        match r {
            Some((name, value)) => env_line_entry(line@) == Some((name@, value@)),
            None => env_line_entry(line@) is None,
        },
{
    let (a, b) = strip_bounds(line, 0, line.len(), CharSet::Whitespace);
    let body = copy_range(line, a, b);
    assert(line@.subrange(0, line@.len() as int) =~= line@);
    if body.len() == 0 || body[0] == '#' {
        return None;
    }
    let eq = find_char(&body, '=');
    if eq >= body.len() {
        return None;
    }
    let (na, nb) = strip_bounds(&body, 0, eq, CharSet::Whitespace);
    let (va, vb) = strip_bounds(&body, eq + 1, body.len(), CharSet::Whitespace);
    let name = string_of(&copy_range(&body, na, nb));
    let value = string_of(&copy_range(&body, va, vb));
    proof {
        assert(body@.take(eq as int) =~= body@.subrange(0, eq as int));
        assert(body@.skip(eq + 1) =~= body@.subrange(eq + 1, body@.len() as int));
    }
    Some((name, value))
}

/// Reads the lines of an environment file into `target`.
pub fn merge_env_text_into(text: &str, target: &mut EnvMap)
    ensures
        final(target)@ == merged_env(old(target)@, text_lines(text@)),
{
    let chars = chars_of(text);
    let lines = split_chars(&chars, CharSet::Only('\n'));
    let ghost all = text_lines(text@);
    let mut i: usize = 0;
    while i < lines.len()
        invariant
            i <= lines.len(),
            vec_views(lines@) == all,
            target@ == merged_env(old(target)@, all.take(i as int)),
        decreases lines.len() - i,
    {
        proof {
            assert(all.take(i + 1).drop_last() =~= all.take(i as int));
            assert(all.take(i + 1).last() == lines@[i as int]@);
        }
        match parse_env_line(&lines[i]) {
            Some((name, value)) => {
                target.insert(name, value);
            },
            None => {},
        }
        i += 1;
    }
    assert(all.take(lines.len() as int) =~= all);
}

/// The variables after each of `vars` was written over `base`, in order.
pub open spec fn with_vars(base: Map<Seq<char>, Seq<char>>, vars: Seq<(String, String)>) -> Map<
    Seq<char>,
    Seq<char>,
>
    decreases vars.len(),
{
    if vars.len() == 0 {
        base
    } else {
        with_vars(base, vars.drop_last()).insert(vars.last().0@, vars.last().1@)
    }
}

/// Writes each of `vars` into `target`, in order.
pub fn merge_vars_into(vars: &Vec<(String, String)>, target: &mut EnvMap)
    ensures
        final(target)@ == with_vars(old(target)@, vars@),
{
    let mut i: usize = 0;
    while i < vars.len()
        invariant
            i <= vars.len(),
            target@ == with_vars(old(target)@, vars@.take(i as int)),
        decreases vars.len() - i,
    {
        proof {
            assert(vars@.take(i + 1).drop_last() =~= vars@.take(i as int));
        }
        target.insert(vars[i].0.clone(), vars[i].1.clone());
        i += 1;
    }
    assert(vars@.take(vars.len() as int) =~= vars@);
}

/// The variables after the content of an environment file, if there is
/// one, was read over `base`.
pub open spec fn with_env_file(base: Map<Seq<char>, Seq<char>>, text: Option<Seq<char>>) -> Map<
    Seq<char>,
    Seq<char>,
> {
    match text {
        Some(t) => merged_env(base, text_lines(t)),
        None => base,
    }
}

/// A copy of `env`.
pub fn clone_env(env: &EnvMap) -> (r: EnvMap)
    ensures
        r@ == env@,
{
    let entries = env.entries();
    let mut r = EnvMap::new();
    let mut i: usize = 0;
    assert(entries@.take(0) =~= Seq::empty());
    while i < entries.len()
        invariant
            i <= entries.len(),
            r@ == entries_map(entries@.take(i as int)),
        decreases entries.len() - i,
    {
        proof {
            assert(entries@.take(i + 1).drop_last() =~= entries@.take(i as int));
        }
        r.insert(entries[i].key.clone(), entries[i].value.clone());
        i += 1;
    }
    assert(entries@.take(entries.len() as int) =~= entries@);
    r
}

/// The variables that every environment starts from: those of the process,
/// where the configuration asks for them, with the lines of the global
/// environment file read over them.
pub open spec fn global_env_of(
    env_from_process: bool,
    process_vars: Seq<(String, String)>,
    env_file_text: Option<Seq<char>>,
) -> Map<Seq<char>, Seq<char>> {
    let inherited = if env_from_process {
        with_vars(Map::empty(), process_vars)
    } else {
        Map::empty()
    };
    with_env_file(inherited, env_file_text)
}

/// Builds the variables that every environment starts from. `env_file_text`
/// is the content of the global environment file, if there is one and it
/// could be read.
pub fn global_env(
    env_from_process: bool,
    process_vars: &Vec<(String, String)>,
    env_file_text: Option<&str>,
) -> (r: EnvMap)
    ensures
        r@ == global_env_of(env_from_process, process_vars@, opt_view(env_file_text)),
{
    let mut r = EnvMap::new();
    if env_from_process {
        merge_vars_into(process_vars, &mut r);
    }
    match env_file_text {
        Some(text) => merge_env_text_into(text, &mut r),
        None => {},
    }
    r
}

/// One environment: a tenant with its git endpoint and its variables.
#[derive(Debug)]
pub struct EnvState {
    pub name: String,
    pub git: GitConfig,
    /// The variables that templates are filled from.
    pub env_map: EnvMap,
}

/// Builds an environment: its variables are the global ones with the lines
/// of its own environment file read over them.
pub fn environment(name: &str, git: &GitConfig, global: &EnvMap, env_file_text: Option<&str>) -> (r:
    EnvState)
    ensures
        r.name@ == name@,
        r.git == *git,
        r.env_map@ == with_env_file(global@, opt_view(env_file_text)),
{
    let mut env_map = clone_env(global);
    match env_file_text {
        Some(text) => merge_env_text_into(text, &mut env_map),
        None => {},
    }
    EnvState { name: name.to_owned(), git: git.clone(), env_map }
}

/// No name occurs twice among `envs`.
pub open spec fn distinct_names(envs: Seq<EnvState>) -> bool {
    forall|i: int, j: int|
        0 <= i < envs.len() && 0 <= j < envs.len() && i != j ==> envs[i].name@ != envs[j].name@
}

/// Whether one of `envs` has the name.
pub open spec fn has_name(envs: Seq<EnvState>, name: Seq<char>) -> bool {
    exists|i: int| 0 <= i < envs.len() && envs[i].name@ == name
}

/// The environments that the server knows, each under its name.
#[derive(Debug)]
pub struct Registry {
    envs: Vec<EnvState>,
}

impl Registry {
    #[verifier::type_invariant]
    spec fn names_are_distinct(self) -> bool {
        distinct_names(self.envs@)
    }

    /// The environments in the order in which they were registered.
    pub closed spec fn listing(self) -> Seq<EnvState> {
        self.envs@
    }

    /// Whether an environment has the name.
    pub open spec fn knows(self, name: Seq<char>) -> bool {
        has_name(self.listing(), name)
    }

    /// A registry without environments.
    pub fn new() -> (r: Self)
        ensures
            r.listing() == Seq::<EnvState>::empty(),
    {
        Registry { envs: Vec::new() }
    }

    /// The position of the environment called `name`.
    fn position(&self, name: &str) -> (r: Option<usize>)
        ensures
            match r {
                Some(i) => i < self.envs@.len() && self.envs@[i as int].name@ == name@,
                None => forall|j: int| 0 <= j < self.envs@.len() ==> self.envs@[j].name@ != name@,
            },
    {
        let wanted = name.to_owned();
        let mut i: usize = 0;
        while i < self.envs.len()
            invariant
                i <= self.envs@.len(),
                wanted@ == name@,
                forall|j: int| 0 <= j < i ==> self.envs@[j].name@ != name@,
            decreases self.envs@.len() - i,
        {
            if self.envs[i].name == wanted {
                return Some(i);
            }
            i += 1;
        }
        None
    }

    /// The environment called `name`, if there is one. An environment is
    /// only ever found under its own name.
    pub fn lookup(&self, name: &str) -> (r: Option<&EnvState>)
        ensures
            r is Some <==> self.knows(name@),
            r matches Some(env) ==> env.name@ == name@ && self.listing().contains(*env),
    {
        match self.position(name) {
            Some(i) => {
                assert(self.listing()[i as int].name@ == name@);
                Some(&self.envs[i])
            },
            None => None,
        }
    }

    /// Registers `env` under its name. It takes the place of an environment
    /// that was registered under that name before.
    pub fn register(&mut self, env: EnvState)
        ensures
            final(self).knows(env.name@),
            forall|name: Seq<char>| old(self).knows(name) ==> final(self).knows(name),
            forall|name: Seq<char>|
                final(self).knows(name) ==> old(self).knows(name) || name == env.name@,
            final(self).listing().contains(env),
            forall|e: EnvState|
                old(self).listing().contains(e) && e.name@ != env.name@ ==> final(self).listing().contains(e),
            !old(self).knows(env.name@) ==> final(self).listing() == old(self).listing().push(env),
            old(self).knows(env.name@) ==> exists|i: int|
                0 <= i < old(self).listing().len() && old(self).listing()[i].name@ == env.name@
                    && final(self).listing() == #[trigger] old(self).listing().update(i, env),
    {
        proof {
            use_type_invariant(&*self);
        }
        let found = self.position(env.name.as_str());
        let ghost before = self.envs@;
        proof {
            if let Some(i) = found {
                assert(before[i as int].name@ == env.name@);
            }
        }
        let mut envs: Vec<EnvState> = Vec::new();
        core::mem::swap(&mut self.envs, &mut envs);
        match found {
            Some(i) => {
                envs.set(i, env);
                assert(envs@ == before.update(i as int, env));
                proof {
                    assert forall|a: int, b: int|
                        0 <= a < envs@.len() && 0 <= b < envs@.len() && a != b implies envs@[a].name@
                        != envs@[b].name@ by {
                        assert(before[a].name@ != before[b].name@);
                    }
                    assert(envs@[i as int] == env);
                    assert forall|e: EnvState| before.contains(e) && e.name@ != env.name@ implies envs@.contains(
                        e,
                    ) by {
                        let k = choose|k: int| 0 <= k < before.len() && before[k] == e;
                        assert(envs@[k] == e);
                    }
                    assert forall|name: Seq<char>| #[trigger]
                        has_name(before, name) implies has_name(envs@, name) by {
                        let k = choose|k: int| 0 <= k < before.len() && before[k].name@ == name;
                        assert(envs@[k].name@ == name);
                    }
                    assert forall|name: Seq<char>| #[trigger]
                        has_name(envs@, name) implies has_name(before, name) || name
                        == env.name@ by {
                        let k = choose|k: int| 0 <= k < envs@.len() && envs@[k].name@ == name;
                        assert(before[k].name@ == name);
                    }
                }
            },
            None => {
                envs.push(env);
                proof {
                    assert forall|a: int, b: int|
                        0 <= a < envs@.len() && 0 <= b < envs@.len() && a != b implies envs@[a].name@
                        != envs@[b].name@ by {
                        if a < before.len() && b < before.len() {
                            assert(before[a].name@ != before[b].name@);
                        }
                    }
                    assert(envs@[before.len() as int] == env);
                    assert forall|e: EnvState| before.contains(e) implies envs@.contains(e) by {
                        let k = choose|k: int| 0 <= k < before.len() && before[k] == e;
                        assert(envs@[k] == e);
                    }
                    assert forall|name: Seq<char>| #[trigger]
                        has_name(before, name) implies has_name(envs@, name) by {
                        let k = choose|k: int| 0 <= k < before.len() && before[k].name@ == name;
                        assert(envs@[k].name@ == name);
                    }
                    assert forall|name: Seq<char>| #[trigger]
                        has_name(envs@, name) implies has_name(before, name) || name
                        == env.name@ by {
                        let k = choose|k: int| 0 <= k < envs@.len() && envs@[k].name@ == name;
                        if k < before.len() {
                            assert(before[k].name@ == name);
                        }
                    }
                }
            },
        }
        core::mem::swap(&mut self.envs, &mut envs);
        proof {
            match found {
                Some(i) => {
                    let at = i as int;
                    assert(0 <= at < old(self).listing().len() && old(self).listing()[at].name@
                        == env.name@ && self.listing() == old(self).listing().update(at, env));
                },
                None => {
                    assert(!has_name(before, env.name@));
                },
            }
        }
    }

    /// The environments in the order in which they were registered. No name
    /// occurs twice among them.
    pub fn environments(&self) -> (r: &Vec<EnvState>)
        ensures
            r@ == self.listing(),
            distinct_names(r@),
    {
        proof {
            use_type_invariant(self);
        }
        &self.envs
    }
}

/// The definition of one environment in the startup configuration.
#[derive(Debug, PartialEq, Eq)]
pub struct EnvDefinition {
    pub name: String,
    pub git: GitConfig,
    /// The path of the environment file of this environment.
    pub env_file: Option<String>,
}

/// The startup configuration. It names either one git endpoint, which is
/// served as the environment `default`, or a list of environments.
#[derive(Debug, PartialEq, Eq)]
pub struct RootConfig {
    pub http: HttpConfig,
    /// Whether the variables of the process are offered to templates.
    pub env_from_process: bool,
    /// The path of the global environment file.
    pub env_file: Option<String>,
    /// The endpoint of a single-instance server.
    pub git: Option<GitConfig>,
    /// The environments of a multi-tenant server.
    pub environments: Vec<EnvDefinition>,
}

/// The name under which a single-instance server offers its endpoint.
pub open spec fn default_env_name() -> Seq<char> {
    "default"@
}

/// The message for a configuration that names no endpoint at all.
pub open spec fn no_endpoint_message() -> Seq<char> {
    "config.yaml must contain either `git` or `environments`"@
}

/// The content of the environment file of definition `i`, as it was read.
pub open spec fn env_file_text(texts: Seq<Option<String>>, i: int) -> Option<Seq<char>> {
    if 0 <= i < texts.len() {
        match texts[i] {
            Some(t) => Some(t@),
            None => None,
        }
    } else {
        None
    }
}

/// Whether `env` is the environment that `definition` describes: it has
/// its name and its endpoint, and its variables are the global ones with
/// the lines of its own environment file read over them.
pub open spec fn is_defined_by(
    env: EnvState,
    definition: EnvDefinition,
    global: Map<Seq<char>, Seq<char>>,
    text: Option<Seq<char>>,
) -> bool {
    &&& env.name@ == definition.name@
    &&& env.git == definition.git
    &&& env.env_map@ == with_env_file(global, text)
}

/// Whether definition `i` is the one that counts for its name among the
/// first `count` definitions: no later one has that name.
pub open spec fn is_last_of_name(definitions: Seq<EnvDefinition>, count: int, i: int) -> bool {
    &&& 0 <= i < count <= definitions.len()
    &&& forall|j: int| i < j < count ==> definitions[j].name@ != definitions[i].name@
}

/// Builds the registry of a startup configuration. `env_file_texts` holds,
/// for each environment of the configuration, the content of its
/// environment file, or `None` where it has none or it could not be read.
///
/// With environments in the configuration each of them is registered under
/// its name; of two with one name the later one counts. Without any, the
/// single endpoint is registered as `default`. A configuration with neither
/// is an error.
pub fn build_registry(root: &RootConfig, global: &EnvMap, env_file_texts: &Vec<Option<String>>) -> (r:
    Result<Registry, ServerError>)
    ensures
        r is Err <==> root.environments.len() == 0 && root.git is None,
        r matches Err(e) ==> e matches ServerError::Other(m) && m@ == no_endpoint_message(),
        r matches Ok(registry) ==> {
            &&& root.environments.len() > 0 ==> forall|name: Seq<char>|
                registry.knows(name) <==> exists|i: int|
                    0 <= i < root.environments.len() && #[trigger] root.environments[i].name@
                        == name
            &&& root.environments.len() > 0 ==> forall|i: int|
                #[trigger] is_last_of_name(root.environments@, root.environments.len() as int, i)
                    ==> exists|k: int|
                    0 <= k < registry.listing().len() && is_defined_by(
                        #[trigger] registry.listing()[k],
                        root.environments[i],
                        global@,
                        env_file_text(env_file_texts@, i),
                    )
            &&& root.environments.len() == 0 ==> registry.listing().len() == 1
                && registry.listing()[0].name@ == default_env_name() && registry.listing()[0].git
                == root.git->0 && registry.listing()[0].env_map@ == global@
        },
{
    let mut registry = Registry::new();
    if root.environments.len() > 0 {
        let mut i: usize = 0;
        while i < root.environments.len()
            invariant
                i <= root.environments.len(),
                forall|name: Seq<char>|
                    registry.knows(name) <==> exists|k: int|
                        0 <= k < i && #[trigger] root.environments[k].name@ == name,
                forall|p: int| #[trigger]
                    is_last_of_name(root.environments@, i as int, p) ==> exists|k: int|
                        0 <= k < registry.listing().len() && is_defined_by(
                            #[trigger] registry.listing()[k],
                            root.environments[p],
                            global@,
                            env_file_text(env_file_texts@, p),
                        ),
            decreases root.environments.len() - i,
        {
            let definition = &root.environments[i];
            let text: Option<&str> = if i < env_file_texts.len() {
                match &env_file_texts[i] {
                    Some(t) => Some(t.as_str()),
                    None => None,
                }
            } else {
                None
            };
            let env = environment(definition.name.as_str(), &definition.git, global, text);
            let ghost before = registry;
            registry.register(env);
            proof {
                assert forall|name: Seq<char>| registry.knows(name) implies exists|k: int|
                    0 <= k < i + 1 && #[trigger] root.environments[k].name@ == name by {
                    if before.knows(name) {
                        let k = choose|k: int|
                            0 <= k < i && #[trigger] root.environments[k].name@ == name;
                        assert(root.environments[k].name@ == name);
                    } else {
                        assert(root.environments[i as int].name@ == name);
                    }
                }
                assert forall|name: Seq<char>|
                    (exists|k: int|
                        0 <= k < i + 1 && #[trigger] root.environments[k].name@
                            == name) implies registry.knows(name) by {
                    let k = choose|k: int|
                        0 <= k < i + 1 && #[trigger] root.environments[k].name@ == name;
                    if k < i {
                        assert(before.knows(name));
                    }
                }
                assert forall|p: int| #[trigger]
                    is_last_of_name(root.environments@, i + 1, p) implies exists|k: int|
                    0 <= k < registry.listing().len() && is_defined_by(
                        #[trigger] registry.listing()[k],
                        root.environments[p],
                        global@,
                        env_file_text(env_file_texts@, p),
                    ) by {
                    if p == i {
                        let k = choose|k: int|
                            0 <= k < registry.listing().len() && registry.listing()[k] == env;
                        assert(is_defined_by(
                            registry.listing()[k],
                            root.environments[p],
                            global@,
                            env_file_text(env_file_texts@, p),
                        ));
                    } else {
                        assert(is_last_of_name(root.environments@, i as int, p));
                        let k0 = choose|k: int|
                            0 <= k < before.listing().len() && is_defined_by(
                                #[trigger] before.listing()[k],
                                root.environments[p],
                                global@,
                                env_file_text(env_file_texts@, p),
                            );
                        let e = before.listing()[k0];
                        assert(before.listing().contains(e));
                        assert(root.environments[i as int].name@ != root.environments[p].name@);
                        assert(registry.listing().contains(e));
                        let k = choose|k: int|
                            0 <= k < registry.listing().len() && registry.listing()[k] == e;
                        assert(is_defined_by(
                            registry.listing()[k],
                            root.environments[p],
                            global@,
                            env_file_text(env_file_texts@, p),
                        ));
                    }
                }
            }
            i += 1;
        }
        Ok(registry)
    } else {
        match &root.git {
            Some(git) => {
                let env = environment("default", git, global, None);
                registry.register(env);
                Ok(registry)
            },
            None => Err(
                ServerError::Other(
                    "config.yaml must contain either `git` or `environments`".to_owned(),
                ),
            ),
        }
    }
}

/// What the handlers share: the HTTP settings, the environments and the
/// credentials.
#[derive(Debug)]
pub struct AppState {
    pub http: HttpConfig,
    pub envs: Registry,
    pub auth: AuthConfig,
}

} // verus!
