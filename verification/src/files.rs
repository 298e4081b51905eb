//! Serving a file of the repository as it is: binary content goes out
//! unchanged, text has the variables of the environment substituted.

use crate::environment::EnvMap;
use crate::error::ServerError;
use crate::template::{substituted, TemplateEngine};
use crate::text::{chars_of, copy_range, string_of, utf8_text};
use vstd::prelude::*;
use vstd::string::*;
use vstd::utf8::{decode_utf8, valid_utf8};

verus! {

/// The media type that the `mime_guess` crate knows for a file extension,
/// if it knows one.
pub uninterp spec fn guessed_media_type(extension: Seq<char>) -> Option<Seq<char>>;

/// Looks up the first media type that `mime_guess::from_ext` has for
/// `extension`.
#[verifier::external_body]
fn guess_media_type(extension: &str) -> (r: Option<String>)
    ensures
        match r {
            Some(media_type) => guessed_media_type(extension@) == Some(media_type@),
            None => guessed_media_type(extension@) is None,
        },
{
    mime_guess::from_ext(extension).first_raw().map(String::from)
}

/// The index of the last occurrence of `c` in `s`, or -1 where `c` does not
/// occur.
pub open spec fn last_position_of(s: Seq<char>, c: char) -> int
    decreases s.len(),
{
    if s.len() == 0 {
        -1
    } else if s.last() == c {
        s.len() - 1
    } else {
        last_position_of(s.drop_last(), c)
    }
}

/// The name of the file that a path ends in: what follows its last slash.
pub open spec fn file_name_of(path: Seq<char>) -> Seq<char> {
    path.skip(last_position_of(path, '/') + 1)
}

/// The extension of the file that a path names: what follows the last dot
/// of the file name. A name without a dot, and one whose only dot is its
/// first character, has no extension: theirs is empty.
pub open spec fn extension_of(path: Seq<char>) -> Seq<char> {
    let name = file_name_of(path);
    let dot = last_position_of(name, '.');
    if dot <= 0 {
        Seq::<char>::empty()
    } else {
        name.skip(dot + 1)
    }
}

/// The content type of files whose extension says nothing, when their
/// content is binary.
pub open spec fn octet_stream() -> Seq<char> {
    "application/octet-stream"@
}

/// The content type of files whose extension says nothing, when their
/// content is text.
pub open spec fn plain_text() -> Seq<char> {
    "text/plain; charset=utf-8"@
}

/// The content type for a guess: the guessed media type or, without one,
/// the fallback for the kind of content.
pub open spec fn media_type_or_fallback(guess: Option<Seq<char>>, binary: bool) -> Seq<char> {
    match guess {
        Some(media_type) => media_type,
        None => if binary {
            octet_stream()
        } else {
            plain_text()
        },
    }
}

/// The content type that a file is served with: the media type of its
/// extension, or the fallback for its kind of content.
pub open spec fn content_type_of(path: Seq<char>, binary: bool) -> Seq<char> {
    media_type_or_fallback(guessed_media_type(extension_of(path)), binary)
}

/// Whether content is binary: it holds a zero byte or is not UTF-8.
pub open spec fn is_binary(bytes: Seq<u8>) -> bool {
    bytes.contains(0u8) || !valid_utf8(bytes)
}

/// The index of the last occurrence of `c` in `v[lo..hi]`, counted from
/// `lo`, or `None`.
fn find_last(v: &Vec<char>, lo: usize, hi: usize, c: char) -> (r: Option<usize>)
    requires
        lo <= hi <= v.len(),
    ensures
        match r {
            Some(i) => lo <= i < hi && last_position_of(v@.subrange(lo as int, hi as int), c) == i
                - lo,
            None => last_position_of(v@.subrange(lo as int, hi as int), c) == -1,
        },
{
    let ghost s = v@.subrange(lo as int, hi as int);
    let mut i: usize = hi;
    assert(s.take(s.len() as int) =~= s);
    while i > lo
        invariant
            lo <= i <= hi <= v.len(),
            s == v@.subrange(lo as int, hi as int),
            last_position_of(s, c) == last_position_of(s.take(i - lo), c),
        decreases i,
    {
        proof {
            assert(s.take(i - lo).drop_last() =~= s.take(i - lo - 1));
            assert(s.take(i - lo).last() == v@[i - 1]);
        }
        if v[i - 1] == c {
            return Some(i - 1);
        }
        i -= 1;
    }
    None
}

/// The extension of the file that `path` names.
pub fn file_extension(path: &str) -> (r: String)
    ensures
        r@ == extension_of(path@),
{
    let chars = chars_of(path);
    assert(chars@.subrange(0, chars@.len() as int) =~= chars@);
    let start = match find_last(&chars, 0, chars.len(), '/') {
        Some(i) => i + 1,
        None => 0,
    };
    assert(chars@.subrange(start as int, chars@.len() as int) =~= file_name_of(path@));
    match find_last(&chars, start, chars.len(), '.') {
        Some(dot) => {
            if dot == start {
                String::new()
            } else {
                let ghost name = file_name_of(path@);
                let r = string_of(&copy_range(&chars, dot + 1, chars.len()));
                assert(r@ =~= name.skip(dot - start + 1));
                r
            }
        },
        None => String::new(),
    }
}

/// The content type for a guessed media type: the guess itself or, without
/// one, `application/octet-stream` for binary content and
/// `text/plain; charset=utf-8` for text.
pub fn content_type_for(guess: Option<String>, binary: bool) -> (r: String)
    ensures
        r@ == media_type_or_fallback(
            match guess {
                Some(media_type) => Some(media_type@),
                None => None,
            },
            binary,
        ),
{
    match guess {
        Some(media_type) => media_type,
        None => if binary {
            "application/octet-stream".to_owned()
        } else {
            "text/plain; charset=utf-8".to_owned()
        },
    }
}

/// The content type that the file at `path` is served with.
pub fn content_type(path: &str, binary: bool) -> (r: String)
    ensures
        r@ == content_type_of(path@, binary),
{
    let extension = file_extension(path);
    content_type_for(guess_media_type(extension.as_str()), binary)
}

/// Whether `bytes` hold a zero byte.
pub fn has_zero_byte(bytes: &Vec<u8>) -> (r: bool)
    ensures
        r == bytes@.contains(0u8),
{
    let mut i: usize = 0;
    while i < bytes.len()
        invariant
            i <= bytes.len(),
            forall|j: int| 0 <= j < i ==> bytes@[j] != 0u8,
        decreases bytes.len() - i,
    {
        if bytes[i] == 0 {
            return true;
        }
        i += 1;
    }
    false
}

/// What a file is served as.
#[derive(Clone, Debug, PartialEq, Eq)]
pub enum FileBody {
    /// The bytes of the file, unchanged.
    Binary(Vec<u8>),
    /// The text of the file after substitution.
    Text(String),
}

/// The answer to a request for a file.
#[derive(Clone, Debug, PartialEq, Eq)]
pub struct FileResponse {
    pub body: FileBody,
    pub content_type: String,
}

/// Builds the answer for the file at `path` with the content `bytes`.
/// Binary content is served unchanged and never passed through the
/// template engine. Text has the variables of `env` substituted.
pub fn file_response(engine: &TemplateEngine, env: &EnvMap, path: &str, bytes: Vec<u8>) -> (r:
    FileResponse)
    ensures
        r.content_type@ == content_type_of(path@, is_binary(bytes@)),
        is_binary(bytes@) ==> r.body == FileBody::Binary(bytes),
        !is_binary(bytes@) ==> (r.body matches FileBody::Text(text) && text@ == substituted(
            engine.pattern(),
            decode_utf8(bytes@),
            env@,
        )),
{
    let text = if has_zero_byte(&bytes) {
        None
    } else {
        utf8_text(&bytes)
    };
    match text {
        Some(text) => FileResponse {
            body: FileBody::Text(engine.substitute(text.as_str(), env)),
            content_type: content_type(path, false),
        },
        None => FileResponse { body: FileBody::Binary(bytes), content_type: content_type(path, true) },
    }
}

/// What a request for a file gives after the file was looked up: the
/// answer for a file that exists, and a not-found error for one that does
/// not.
pub fn serve_file(
    engine: &TemplateEngine,
    env: &EnvMap,
    path: &str,
    content: Option<Vec<u8>>,
) -> (r: Result<FileResponse, ServerError>)
    ensures
        content is None ==> r == Err::<FileResponse, ServerError>(ServerError::NotFound),
        content matches Some(bytes) ==> (r matches Ok(response) && response.content_type@
            == content_type_of(path@, is_binary(bytes@)) && (is_binary(bytes@) ==> response.body
            == FileBody::Binary(bytes)) && (!is_binary(bytes@) ==> (response.body matches FileBody::Text(
            text,
        ) && text@ == substituted(engine.pattern(), decode_utf8(bytes@), env@)))),
{
    match content {
        Some(bytes) => Ok(file_response(engine, env, path, bytes)),
        None => Err(ServerError::NotFound),
    }
}

} // verus!
