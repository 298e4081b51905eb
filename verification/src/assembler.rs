//! The configuration assembler: which files make up the configuration of an
//! application under its profiles, and how the files that exist are merged
//! into one property map.

use crate::environment::EnvMap;
use crate::error::ServerError;
use crate::properties::{flatten_yaml_value, flattened, written, PropertyMap, Scalar, Write};
use crate::template::{substituted, TemplateEngine};
use crate::text::{
    chars_of, split_chars, split_on, string_of, string_views, strip_chars, trimmed, utf8_text,
    CharSet,
};
use crate::yaml::{parse_document, yaml_document};
use vstd::prelude::*;
use vstd::string::*;
use vstd::utf8::{decode_utf8, valid_utf8};

verus! {

/// The profiles that a comma-separated list names: its pieces without
/// surrounding whitespace, in order, the empty ones dropped.
pub open spec fn profiles_of(list: Seq<char>) -> Seq<Seq<char>> {
    split_on(list, CharSet::Only(',')).map_values(|p: Seq<char>| trimmed(p)).filter(
        |p: Seq<char>| p.len() > 0,
    )
}

/// The profiles that `profile_str` names.
pub fn parse_profiles(profile_str: &str) -> (r: Vec<String>)
    ensures
        string_views(r@) == profiles_of(profile_str@),
{
    let chars = chars_of(profile_str);
    let pieces = split_chars(&chars, CharSet::Only(','));
    let ghost all = split_on(profile_str@, CharSet::Only(',')).map_values(
        |p: Seq<char>| trimmed(p),
    );
    let ghost keep = |p: Seq<char>| p.len() > 0;
    let mut r: Vec<String> = Vec::new();
    let mut i: usize = 0;
    proof {
        reveal(Seq::filter);
        assert(string_views(r@) =~= all.take(0).filter(keep));
    }
    while i < pieces.len()
        invariant
            i <= pieces.len(),
            pieces.len() == all.len(),
            forall|j: int| 0 <= j < pieces.len() ==> all[j] == trimmed(pieces@[j]@),
            keep == (|p: Seq<char>| p.len() > 0),
            string_views(r@) == all.take(i as int).filter(keep),
        decreases pieces.len() - i,
    {
        let name = strip_chars(&pieces[i], CharSet::Whitespace);
        let ghost before = string_views(r@);
        proof {
            reveal(Seq::filter);
            assert(all.take(i + 1).drop_last() =~= all.take(i as int));
            assert(all.take(i + 1).last() == name@);
        }
        if name.len() > 0 {
            let profile = string_of(&name);
            r.push(profile);
            assert(string_views(r@) =~= before.push(name@));
        }
        i += 1;
    }
    assert(all.take(pieces.len() as int) =~= all);
    r
}

/// The files that every application reads, whatever its profiles:
/// `application.yml`, `application.yaml`, `{application}.yml` and
/// `{application}.yaml`.
pub open spec fn shared_candidates(application: Seq<char>) -> Seq<Seq<char>> {
    seq![
        "application.yml"@,
        "application.yaml"@,
        application + ".yml"@,
        application + ".yaml"@,
    ]
}

/// The files of one profile: `application-{profile}.yml`,
/// `application-{profile}.yaml`, `{application}-{profile}.yml` and
/// `{application}-{profile}.yaml`.
pub open spec fn profile_candidates(application: Seq<char>, profile: Seq<char>) -> Seq<Seq<char>> {
    seq![
        "application-"@ + profile + ".yml"@,
        "application-"@ + profile + ".yaml"@,
        application + seq!['-'] + profile + ".yml"@,
        application + seq!['-'] + profile + ".yaml"@,
    ]
}

/// The candidate files of an application under its profiles, in the order
/// in which they are merged: the shared files, then the files of each
/// profile in the order of the request.
pub open spec fn candidate_names(application: Seq<char>, profiles: Seq<Seq<char>>) -> Seq<Seq<char>>
    decreases profiles.len(),
{
    if profiles.len() == 0 {
        shared_candidates(application)
    } else {
        candidate_names(application, profiles.drop_last()) + profile_candidates(
            application,
            profiles.last(),
        )
    }
}

/// `stem` with `extension` behind it.
fn with_extension(stem: &String, extension: &str) -> (r: String)
    ensures
        r@ == stem@ + extension@,
{
    let mut r = stem.clone();
    r.append(extension);
    r
}

/// `stem`, a hyphen and `profile`.
fn with_profile(stem: &str, profile: &str) -> (r: String)
    ensures
        r@ == stem@ + seq!['-'] + profile@,
{
    let mut r = stem.to_owned();
    r.push('-');
    r.append(profile);
    r
}

/// The candidate files of `application` under `profiles`, in merge order.
pub fn candidate_files(application: &str, profiles: &Vec<String>) -> (r: Vec<String>)
    ensures
        string_views(r@) == candidate_names(application@, string_views(profiles@)),
{
    let mut r: Vec<String> = Vec::new();
    let app = application.to_owned();
    r.push("application.yml".to_owned());
    r.push("application.yaml".to_owned());
    r.push(with_extension(&app, ".yml"));
    r.push(with_extension(&app, ".yaml"));
    let ghost names = string_views(profiles@);
    assert(string_views(r@) =~= candidate_names(application@, names.take(0)));
    let mut i: usize = 0;
    while i < profiles.len()
        invariant
            i <= profiles.len(),
            names == string_views(profiles@),
            string_views(r@) == candidate_names(application@, names.take(i as int)),
        decreases profiles.len() - i,
    {
        let profile = profiles[i].as_str();
        let ghost before = string_views(r@);
        let shared = with_profile("application", profile);
        let own = with_profile(application, profile);
        r.push(with_extension(&shared, ".yml"));
        r.push(with_extension(&shared, ".yaml"));
        r.push(with_extension(&own, ".yml"));
        r.push(with_extension(&own, ".yaml"));
        proof {
            reveal_strlit("application");
            reveal_strlit("application-");
            assert("application"@ + seq!['-'] =~= "application-"@);
            assert(names.take(i + 1).drop_last() =~= names.take(i as int));
            assert(names.take(i + 1).last() == profile@);
            assert(string_views(r@) =~= before + profile_candidates(application@, profile@));
        }
        i += 1;
    }
    assert(names.take(profiles.len() as int) =~= names);
    r
}

/// Why a file that was found cannot be merged.
pub enum Unreadable {
    /// Its bytes are not UTF-8.
    NotText,
    /// Its text, after substitution, is no YAML document.
    NotYaml,
}

/// The properties that a found file contributes: its bytes are read as
/// text, the variables of `env` are substituted, the result is parsed as a
/// YAML document, and the document is flattened.
pub open spec fn file_writes(pattern: Seq<char>, env: Map<Seq<char>, Seq<char>>, bytes: Seq<u8>) -> Result<
    Seq<Write>,
    Unreadable,
> {
    if !valid_utf8(bytes) {
        Err(Unreadable::NotText)
    } else {
        match yaml_document(substituted(pattern, decode_utf8(bytes), env)) {
            Some(document) => Ok(flattened(None, document)),
            None => Err(Unreadable::NotYaml),
        }
    }
}

/// What the candidate files give together, where `files` holds for each
/// candidate, in merge order, its bytes or `None` if it does not exist:
/// the merged properties and whether any file was found. Files that do not
/// exist are skipped. Each file that exists is written over what the files
/// before it gave. The first file that cannot be merged fails the whole.
pub open spec fn assembled(
    pattern: Seq<char>,
    env: Map<Seq<char>, Seq<char>>,
    files: Seq<Option<Vec<u8>>>,
) -> Result<(Map<Seq<char>, Scalar>, bool), Unreadable>
    decreases files.len(),
{
    if files.len() == 0 {
        Ok((Map::empty(), false))
    } else {
        match assembled(pattern, env, files.drop_last()) {
            Err(reason) => Err(reason),
            Ok((properties, found_any)) => match files.last() {
                None => Ok((properties, found_any)),
                Some(bytes) => match file_writes(pattern, env, bytes@) {
                    Ok(writes) => Ok((written(properties, writes), true)),
                    Err(reason) => Err(reason),
                },
            },
        }
    }
}

/// Where no candidate file exists, nothing is found and no property is
/// set: assembling cannot fail then.
pub proof fn lemma_nothing_found(
    pattern: Seq<char>,
    env: Map<Seq<char>, Seq<char>>,
    files: Seq<Option<Vec<u8>>>,
)
    requires
        forall|i: int| 0 <= i < files.len() ==> files[i] is None,
    ensures
        assembled(pattern, env, files) == Ok::<(Map<Seq<char>, Scalar>, bool), Unreadable>(
            (Map::empty(), false),
        ),
    decreases files.len(),
{
    if files.len() > 0 {
        let front = files.drop_last();
        assert forall|i: int| 0 <= i < front.len() implies front[i] is None by {
            assert(front[i] == files[i]);
        }
        lemma_nothing_found(pattern, env, front);
        assert(files.last() == files[files.len() - 1]);
    }
}

/// A file was found exactly when one of the candidates exists.
pub proof fn lemma_found_any(
    pattern: Seq<char>,
    env: Map<Seq<char>, Seq<char>>,
    files: Seq<Option<Vec<u8>>>,
)
    requires
        assembled(pattern, env, files) is Ok,
    ensures
        assembled(pattern, env, files)->Ok_0.1 <==> exists|i: int|
            0 <= i < files.len() && files[i] is Some,
    decreases files.len(),
{
    if files.len() > 0 {
        let front = files.drop_last();
        lemma_found_any(pattern, env, front);
        if exists|i: int| 0 <= i < front.len() && front[i] is Some {
            let i = choose|i: int| 0 <= i < front.len() && front[i] is Some;
            assert(files[i] is Some);
        }
        if files.last() is Some {
            assert(files[files.len() - 1] is Some);
        }
        if exists|i: int| 0 <= i < files.len() && files[i] is Some {
            let i = choose|i: int| 0 <= i < files.len() && files[i] is Some;
            if i < front.len() {
                assert(front[i] is Some);
            }
        }
    }
}

/// Merges one file that was found into `out`. The bytes must be UTF-8 and,
/// after substitution, a YAML document; else the file is rejected and `out`
/// stays as it was.
pub fn absorb_file(engine: &TemplateEngine, env: &EnvMap, bytes: &Vec<u8>, out: &mut PropertyMap) -> (r:
    Result<(), ServerError>)
    ensures
        match file_writes(engine.pattern(), env@, bytes@) {
            Ok(writes) => r is Ok && final(out)@ == written(old(out)@, writes),
            Err(Unreadable::NotText) => r == Err::<(), ServerError>(ServerError::Utf8)
                && final(out)@ == old(out)@,
            Err(Unreadable::NotYaml) => r is Err && r->Err_0 is Yaml && final(out)@ == old(out)@,
        },
{
    let content = match utf8_text(bytes) {
        Some(content) => content,
        None => {
            return Err(ServerError::Utf8);
        },
    };
    let templated = engine.substitute(content.as_str(), env);
    let document = match parse_document(templated.as_str()) {
        Ok(document) => document,
        Err(e) => {
            return Err(e);
        },
    };
    flatten_yaml_value(None, &document, out);
    Ok(())
}

/// Assembles the properties of a request from what reading its candidate
/// files gave: `files` holds for each candidate, in merge order, its bytes
/// or `None` if it does not exist. Returns the merged properties and
/// whether any file was found.
pub fn assemble(engine: &TemplateEngine, env: &EnvMap, files: &Vec<Option<Vec<u8>>>) -> (r: Result<
    (PropertyMap, bool),
    ServerError,
>)
    ensures
        match assembled(engine.pattern(), env@, files@) {
            Ok((properties, found_any)) => r matches Ok((map, found)) && map@ == properties
                && found == found_any,
            Err(Unreadable::NotText) => r matches Err(e) && e == ServerError::Utf8,
            Err(Unreadable::NotYaml) => r matches Err(e) && e is Yaml,
        },
{
    let mut properties = PropertyMap::new();
    let mut found_any = false;
    let mut i: usize = 0;
    assert(files@.take(0) =~= Seq::<Option<Vec<u8>>>::empty());
    while i < files.len()
        invariant
            i <= files.len(),
            assembled(engine.pattern(), env@, files@.take(i as int)) == Ok::<
                (Map<Seq<char>, Scalar>, bool),
                Unreadable,
            >((properties@, found_any)),
        decreases files.len() - i,
    {
        proof {
            assert(files@.take(i + 1).drop_last() =~= files@.take(i as int));
            assert(files@.take(i + 1).last() == files@[i as int]);
        }
        match &files[i] {
            Some(bytes) => {
                match absorb_file(engine, env, bytes, &mut properties) {
                    Ok(()) => {
                        found_any = true;
                    },
                    Err(e) => {
                        proof {
                            lemma_failure_stays(
                                engine.pattern(),
                                env@,
                                files@,
                                i + 1,
                            );
                        }
                        return Err(e);
                    },
                }
            },
            None => {},
        }
        i += 1;
    }
    assert(files@.take(files.len() as int) =~= files@);
    Ok((properties, found_any))
}

/// Once the files up to some candidate cannot be merged, adding further
/// candidates changes nothing: the first failure is the result.
pub proof fn lemma_failure_stays(
    pattern: Seq<char>,
    env: Map<Seq<char>, Seq<char>>,
    files: Seq<Option<Vec<u8>>>,
    count: int,
)
    requires
        0 <= count <= files.len(),
        assembled(pattern, env, files.take(count)) is Err,
    ensures
        assembled(pattern, env, files) == assembled(pattern, env, files.take(count)),
    decreases files.len() - count,
{
    if count < files.len() {
        assert(files.take(count + 1).drop_last() =~= files.take(count));
        lemma_failure_stays(pattern, env, files, count + 1);
    } else {
        assert(files.take(count) =~= files);
    }
}

} // verus!
