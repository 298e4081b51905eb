//! HTTP Basic authentication.

use crate::config::AuthConfig;
use crate::text::{
    chars_of, copy_range, find_char, has_prefix, opt_view, position_of, same_chars, string_of,
    text_from_utf8_lossy, utf8_lossy,
};
use base64::Engine;
use vstd::prelude::*;

verus! {

/// The bytes that the standard base64 alphabet, with padding, decodes
/// `text` to, or `None` where `text` is no such encoding.
pub uninterp spec fn base64_decoded(text: Seq<char>) -> Option<Seq<u8>>;

/// Decodes `text` with the `STANDARD` engine of the `base64` crate.
#[verifier::external_body]
fn decode_base64(text: &str) -> (r: Option<Vec<u8>>)
    ensures
        match r {
            Some(bytes) => base64_decoded(text@) == Some(bytes@),
            None => base64_decoded(text@) is None,
        },
{
    base64::engine::general_purpose::STANDARD.decode(text).ok()
}

/// The user name in `user:password`: the text before the first colon, or
/// all of it where there is none.
pub open spec fn credentials_user(credentials: Seq<char>) -> Seq<char> {
    credentials.take(position_of(credentials, ':'))
}

/// The password in `user:password`: the text after the first colon, empty
/// where there is none.
pub open spec fn credentials_password(credentials: Seq<char>) -> Seq<char> {
    let colon = position_of(credentials, ':');
    if colon < credentials.len() {
        credentials.skip(colon + 1)
    } else {
        Seq::<char>::empty()
    }
}

/// Whether `credentials`, of the form `user:password`, are the configured
/// ones.
pub open spec fn credentials_match(auth: AuthConfig, credentials: Seq<char>) -> bool {
    credentials_user(credentials) == auth.username@ && credentials_password(credentials)
        == auth.password@
}

/// The scheme that an `Authorization` header must begin with.
pub open spec fn basic_scheme() -> Seq<char> {
    "Basic "@
}

/// Whether a request with the given `Authorization` header may pass. Where
/// authentication is switched off every request passes. Else the header
/// must be there, begin with `Basic ` and continue with the base64 encoding
/// of the configured `user:password`.
pub open spec fn is_authorized(auth: AuthConfig, authorization: Option<Seq<char>>) -> bool {
    !auth.required || match authorization {
        None => false,
        Some(header) => basic_scheme().is_prefix_of(header) && match base64_decoded(
            header.skip(basic_scheme().len() as int),
        ) {
            Some(bytes) => credentials_match(auth, utf8_lossy(bytes)),
            None => false,
        },
    }
}

/// Whether `credentials`, of the form `user:password`, are the configured
/// ones.
pub fn check_credentials(auth: &AuthConfig, credentials: &str) -> (r: bool)
    ensures
        r == credentials_match(*auth, credentials@),
{
    let chars = chars_of(credentials);
    let colon = find_char(&chars, ':');
    let user = copy_range(&chars, 0, colon);
    let password = if colon < chars.len() {
        copy_range(&chars, colon + 1, chars.len())
    } else {
        Vec::new()
    };
    proof {
        assert(chars@.take(colon as int) =~= chars@.subrange(0, colon as int));
        if colon < chars.len() {
            assert(chars@.skip(colon + 1) =~= chars@.subrange(colon + 1, chars@.len() as int));
        }
    }
    same_chars(&user, &chars_of(auth.username.as_str())) && same_chars(
        &password,
        &chars_of(auth.password.as_str()),
    )
}

/// Whether a request with the given `Authorization` header may pass.
pub fn check_basic_auth(auth: &AuthConfig, authorization: Option<&str>) -> (r: bool)
    ensures
        r == is_authorized(*auth, opt_view(authorization)),
{
    if !auth.required {
        return true;
    }
    let header = match authorization {
        Some(h) => chars_of(h),
        None => {
            return false;
        },
    };
    let scheme = chars_of("Basic ");
    proof {
        reveal_strlit("Basic ");
    }
    if !has_prefix(&header, &scheme) {
        return false;
    }
    let encoded = string_of(&copy_range(&header, scheme.len(), header.len()));
    assert(encoded@ =~= header@.skip(basic_scheme().len() as int));
    let decoded = match decode_base64(encoded.as_str()) {
        Some(bytes) => bytes,
        None => {
            return false;
        },
    };
    let credentials = text_from_utf8_lossy(&decoded);
    check_credentials(auth, credentials.as_str())
}

} // verus!
