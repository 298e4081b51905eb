//! The template engine: placeholders in a text are replaced by the values
//! of the variables that they name.
//!
//! Where the placeholders of a text are is decided by the `regex` crate. The
//! engine cuts the text into the literal pieces between the placeholders and
//! the placeholders themselves, and puts the result together from these.

use crate::environment::EnvMap;
use crate::error::ServerError;
use crate::text::string_views;
use vstd::prelude::*;
use vstd::string::*;

verus! {

/// A compiled regular expression of the `regex` crate. Nothing is known of
/// what is inside one.
#[verifier::external_type_specification]
#[verifier::external_body]
pub struct ExRegex(regex::Regex);

/// The error of `Regex::new`.
#[verifier::external_type_specification]
#[verifier::external_body]
pub struct ExRegexError(regex::Error);

/// The pattern that a compiled expression was made from, as
/// `Regex::as_str` returns it.
pub uninterp spec fn regex_source(re: regex::Regex) -> Seq<char>;

/// Whether `Regex::new` accepts `pattern`.
pub uninterp spec fn regex_compiles(pattern: Seq<char>) -> bool;

/// The pieces of `text` that `Regex::split` yields for the expression
/// compiled from `pattern`: the text before the first match, between each
/// two matches, and after the last one.
pub uninterp spec fn pattern_literals(pattern: Seq<char>, text: Seq<char>) -> Seq<Seq<char>>;

/// The matches that `Regex::captures_iter` yields in `text` for the
/// expression compiled from `pattern`, in order: of each the matched text
/// and the text of its first capture group, if that group took part.
pub uninterp spec fn pattern_captures(pattern: Seq<char>, text: Seq<char>) -> Seq<
    (Seq<char>, Option<Seq<char>>),
>;

/// One placeholder found in a text.
#[derive(Clone, Debug, PartialEq, Eq)]
pub struct Placeholder {
    /// The placeholder as it stands in the text, braces included.
    pub text: String,
    /// The name between the braces.
    pub name: Option<String>,
}

impl View for Placeholder {
    type V = (Seq<char>, Option<Seq<char>>);

    open spec fn view(&self) -> (Seq<char>, Option<Seq<char>>) {
        (
            self.text@,
            match self.name {
                Some(n) => Some(n@),
                None => None,
            },
        )
    }
}

/// The views of a sequence of placeholders.
pub open spec fn placeholder_views(items: Seq<Placeholder>) -> Seq<(Seq<char>, Option<Seq<char>>)> {
    Seq::new(items.len(), |i: int| items[i]@)
}

/// What stands in the output for a placeholder: the value of the variable
/// that it names or, where `env` has no such variable, the placeholder
/// itself.
pub open spec fn replacement(
    placeholder: (Seq<char>, Option<Seq<char>>),
    env: Map<Seq<char>, Seq<char>>,
) -> Seq<char> {
    match placeholder.1 {
        Some(name) => if env.contains_key(name) {
            env[name]
        } else {
            placeholder.0
        },
        None => placeholder.0,
    }
}

/// The text put together from its literal pieces and, between each two of
/// them, the replacement of the placeholder that stood there.
pub open spec fn rendered(
    literals: Seq<Seq<char>>,
    placeholders: Seq<(Seq<char>, Option<Seq<char>>)>,
    env: Map<Seq<char>, Seq<char>>,
) -> Seq<char>
    recommends
        literals.len() == placeholders.len() + 1,
    decreases placeholders.len(),
{
    if placeholders.len() == 0 || literals.len() < 2 {
        if literals.len() == 0 {
            Seq::<char>::empty()
        } else {
            literals[0]
        }
    } else {
        rendered(literals.drop_last(), placeholders.drop_last(), env) + replacement(
            placeholders.last(),
            env,
        ) + literals.last()
    }
}

/// What substituting the variables of `env` in `text` gives, where the
/// placeholders of `text` are those that `pattern` finds.
pub open spec fn substituted(
    pattern: Seq<char>,
    text: Seq<char>,
    env: Map<Seq<char>, Seq<char>>,
) -> Seq<char> {
    rendered(pattern_literals(pattern, text), pattern_captures(pattern, text), env)
}

/// `literals` and `placeholders` cut `text` into pieces: there is one
/// literal more than there are placeholders, and the literals with the
/// placeholders between them, each as it stood, give `text` again.
pub open spec fn segments_of(
    text: Seq<char>,
    literals: Seq<Seq<char>>,
    placeholders: Seq<(Seq<char>, Option<Seq<char>>)>,
) -> bool {
    &&& literals.len() == placeholders.len() + 1
    &&& rendered(literals, placeholders, Map::empty()) == text
}

/// No placeholder names a variable of `env`.
pub open spec fn all_unknown(
    placeholders: Seq<(Seq<char>, Option<Seq<char>>)>,
    env: Map<Seq<char>, Seq<char>>,
) -> bool {
    forall|i: int|
        0 <= i < placeholders.len() ==> match (#[trigger] placeholders[i]).1 {
            Some(name) => !env.contains_key(name),
            None => true,
        }
}

/// A text whose placeholders all name unknown variables is rendered as it
/// was: every placeholder is left as it stood.
pub proof fn lemma_unknown_placeholders_stay(
    literals: Seq<Seq<char>>,
    placeholders: Seq<(Seq<char>, Option<Seq<char>>)>,
    env: Map<Seq<char>, Seq<char>>,
)
    requires
        all_unknown(placeholders, env),
    ensures
        rendered(literals, placeholders, env) == rendered(literals, placeholders, Map::empty()),
    decreases placeholders.len(),
{
    if placeholders.len() == 0 || literals.len() < 2 {
    } else {
        let front = placeholders.drop_last();
        assert(all_unknown(front, env)) by {
            assert forall|i: int| 0 <= i < front.len() implies match (#[trigger] front[i]).1 {
                Some(name) => !env.contains_key(name),
                None => true,
            } by {
                assert(front[i] == placeholders[i]);
            }
        }
        lemma_unknown_placeholders_stay(literals.drop_last(), front, env);
        assert(placeholders.last() == placeholders[placeholders.len() - 1]);
    }
}

/// Substituting in a text that holds no placeholder, or only placeholders of
/// unknown variables, gives the text back unchanged.
pub proof fn lemma_substitution_identity(
    text: Seq<char>,
    literals: Seq<Seq<char>>,
    placeholders: Seq<(Seq<char>, Option<Seq<char>>)>,
    env: Map<Seq<char>, Seq<char>>,
)
    requires
        segments_of(text, literals, placeholders),
        all_unknown(placeholders, env),
    ensures
        rendered(literals, placeholders, env) == text,
{
    lemma_unknown_placeholders_stay(literals, placeholders, env);
}

/// Compiles `pattern` with `Regex::new`. It succeeds exactly on the patterns
/// that the crate accepts, and the compiled expression remembers the pattern
/// that it was made from.
#[verifier::external_body]
fn compile_pattern(pattern: &str) -> (r: Result<regex::Regex, regex::Error>)
    ensures
        r is Ok <==> regex_compiles(pattern@),
        r matches Ok(re) ==> regex_source(re) == pattern@,
{
    regex::Regex::new(pattern)
}

/// The text of a compile error, by its `Display`.
#[verifier::external_body]
fn regex_error_text(e: &regex::Error) -> (r: String) {
    e.to_string()
}

/// The pieces of `text` between the matches of `re`, by `Regex::split`.
/// The crate yields the text before the first match, between each two
/// successive matches and after the last one; so there is one piece more
/// than `Regex::captures_iter` finds matches, and the pieces with the
/// matched texts between them give `text` again.
#[verifier::external_body]
fn split_literals(re: &regex::Regex, text: &str) -> (r: Vec<String>)
    ensures
        string_views(r@) == pattern_literals(regex_source(*re), text@),
        segments_of(text@, string_views(r@), pattern_captures(regex_source(*re), text@)),
{
    re.split(text).map(String::from).collect()
}

/// The matches of `re` in `text`, by `Regex::captures_iter`: of each the
/// matched text and the text of the first capture group.
#[verifier::external_body]
fn find_placeholders(re: &regex::Regex, text: &str) -> (r: Vec<Placeholder>)
    ensures
        placeholder_views(r@) == pattern_captures(regex_source(*re), text@),
{
    re.captures_iter(text).map(
        |c| Placeholder {
            text: c.get_match().as_str().to_owned(),
            name: c.get(1).map(|m| m.as_str().to_owned()),
        },
    ).collect()
}

/// Appends to `out` what stands for `placeholder`.
fn push_replacement(out: &mut String, placeholder: &Placeholder, env: &EnvMap)
    ensures
        final(out)@ == old(out)@ + replacement(placeholder@, env@),
{
    match &placeholder.name {
        Some(name) => match env.get(name) {
            Some(value) => out.append(value.as_str()),
            None => out.append(placeholder.text.as_str()),
        },
        None => out.append(placeholder.text.as_str()),
    }
}

/// Puts a text together from its literal pieces and the placeholders that
/// stood between them: each placeholder that names a variable of `env` is
/// replaced by the value of that variable, every other one is left as it
/// stood. Values are copied as they are; placeholders inside them are not
/// looked at.
pub fn render_segments(literals: &Vec<String>, placeholders: &Vec<Placeholder>, env: &EnvMap) -> (out:
    String)
    requires
        literals.len() == placeholders.len() + 1,
    ensures
        out@ == rendered(string_views(literals@), placeholder_views(placeholders@), env@),
        all_unknown(placeholder_views(placeholders@), env@) ==> out@ == rendered(
            string_views(literals@),
            placeholder_views(placeholders@),
            Map::empty(),
        ),
{
    let ghost lits = string_views(literals@);
    let ghost phs = placeholder_views(placeholders@);
    let mut out = literals[0].clone();
    let mut i: usize = 0;
    assert(rendered(lits.take(1), phs.take(0), env@) == lits[0]);
    while i < placeholders.len()
        invariant
            i <= placeholders.len(),
            literals.len() == placeholders.len() + 1,
            lits == string_views(literals@),
            phs == placeholder_views(placeholders@),
            out@ == rendered(lits.take(i + 1), phs.take(i as int), env@),
        decreases placeholders.len() - i,
    {
        proof {
            assert(lits.take(i + 2).drop_last() =~= lits.take(i + 1));
            assert(phs.take(i + 1).drop_last() =~= phs.take(i as int));
            assert(phs.take(i + 1).last() == placeholders@[i as int]@);
            assert(lits.take(i + 2).last() == literals@[i + 1]@);
        }
        push_replacement(&mut out, &placeholders[i], env);
        out.append(literals[i + 1].as_str());
        i += 1;
    }
    proof {
        assert(lits.take(literals.len() as int) =~= lits);
        assert(phs.take(placeholders.len() as int) =~= phs);
        if all_unknown(phs, env@) {
            lemma_unknown_placeholders_stay(lits, phs, env@);
        }
    }
    out
}

/// The pattern of a placeholder: a name between double braces, with
/// optional whitespace around the name. A name is a letter or an underscore
/// followed by letters, digits and underscores.
pub const PLACEHOLDER_PATTERN: &'static str = "\\{\\{\\s*([A-Za-z_][A-Za-z0-9_]*)\\s*\\}\\}";

/// A template engine: it owns the compiled pattern of its placeholders.
pub struct TemplateEngine {
    re: regex::Regex,
}

impl TemplateEngine {
    /// The pattern of this engine's placeholders.
    pub closed spec fn pattern(&self) -> Seq<char> {
        regex_source(self.re)
    }

    /// An engine for placeholders of the given pattern, whose first capture
    /// group is the name of the variable. A pattern that does not compile is
    /// reported as [`ServerError::Other`].
    pub fn with_pattern(pattern: &str) -> (r: Result<TemplateEngine, ServerError>)
        ensures
            r is Ok <==> regex_compiles(pattern@),
            r matches Ok(engine) ==> engine.pattern() == pattern@,
            r matches Err(e) ==> e is Other,
    {
        match compile_pattern(pattern) {
            Ok(re) => Ok(TemplateEngine { re }),
            Err(e) => Err(ServerError::Other(regex_error_text(&e))),
        }
    }

    /// An engine for placeholders of the form `{{ NAME }}`.
    pub fn new() -> (r: Result<TemplateEngine, ServerError>)
        ensures
            r is Ok <==> regex_compiles(PLACEHOLDER_PATTERN@),
            r matches Ok(engine) ==> engine.pattern() == PLACEHOLDER_PATTERN@,
            r matches Err(e) ==> e is Other,
    {
        TemplateEngine::with_pattern(PLACEHOLDER_PATTERN)
    }

    /// Replaces each placeholder of `text` that names a variable of `env`
    /// by the value of that variable, in one pass. A text without
    /// placeholders, and one whose placeholders all name unknown variables,
    /// comes back unchanged.
    pub fn substitute(&self, text: &str, env: &EnvMap) -> (out: String)
        ensures
            out@ == substituted(self.pattern(), text@, env@),
            all_unknown(pattern_captures(self.pattern(), text@), env@) ==> out@ == text@,
            pattern_captures(self.pattern(), text@).len() == 0 ==> out@ == text@,
    {
        let literals = split_literals(&self.re, text);
        let placeholders = find_placeholders(&self.re, text);
        render_segments(&literals, &placeholders, env)
    }
}

/// Substitutes the variables of `env` in `input`.
pub fn apply_template(engine: &TemplateEngine, input: &str, env: &EnvMap) -> (out: String)
    ensures
        out@ == substituted(engine.pattern(), input@, env@),
        all_unknown(pattern_captures(engine.pattern(), input@), env@) ==> out@ == input@,
{
    engine.substitute(input, env)
}

} // verus!
